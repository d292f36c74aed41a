use vstd::prelude::*;
use vstd::string::*;

verus! {

/// The HTTP methods that a request can use.
#[derive(Clone, Copy, Debug, PartialEq, Eq, Structural)]
pub enum Method {
    Get,
    Post,
    Put,
    Patch,
    Head,
    Delete,
}

/// The code of `c` with an ASCII capital letter taken to its small letter.
pub open spec fn folded(c: char) -> int {
    if 65 <= (c as int) <= 90 {
        (c as int) + 32
    } else {
        c as int
    }
}

/// `a` and `b` are equal up to the case of ASCII letters.
pub open spec fn eq_ignoring_ascii_case(a: Seq<char>, b: Seq<char>) -> bool {
    &&& a.len() == b.len()
    &&& forall|i: int| 0 <= i < a.len() ==> folded(#[trigger] a[i]) == folded(b[i])
}

/// The method whose name `s` is, in any case of its letters.
pub open spec fn method_named(s: Seq<char>) -> Option<Method> {
    if eq_ignoring_ascii_case(s, seq!['G', 'E', 'T']) {
        Some(Method::Get)
    } else if eq_ignoring_ascii_case(s, seq!['P', 'O', 'S', 'T']) {
        Some(Method::Post)
    } else if eq_ignoring_ascii_case(s, seq!['P', 'U', 'T']) {
        Some(Method::Put)
    } else if eq_ignoring_ascii_case(s, seq!['P', 'A', 'T', 'C', 'H']) {
        Some(Method::Patch)
    } else if eq_ignoring_ascii_case(s, seq!['H', 'E', 'A', 'D']) {
        Some(Method::Head)
    } else if eq_ignoring_ascii_case(s, seq!['D', 'E', 'L', 'E', 'T', 'E']) {
        Some(Method::Delete)
    } else {
        None
    }
}

/// The methods whose requests carry a body.
pub open spec fn carries_body(m: Method) -> bool {
    m == Method::Post || m == Method::Put || m == Method::Patch
}

fn same_ignoring_ascii_case(a: &str, b: &str) -> (r: bool)
    ensures
        r == eq_ignoring_ascii_case(a@, b@),
{
    let n = a.unicode_len();
    if n != b.unicode_len() {
        return false;
    }
    let mut i: usize = 0;
    while i < n
        invariant
            n == a@.len(),
            n == b@.len(),
            i <= n,
            forall|j: int| 0 <= j < i ==> folded(#[trigger] a@[j]) == folded(b@[j]),
        decreases n - i,
    {
        let x = a.get_char(i) as u32;
        let y = b.get_char(i) as u32;
        let fx: u32 = if 65 <= x && x <= 90 {
            x + 32
        } else {
            x
        };
        let fy: u32 = if 65 <= y && y <= 90 {
            y + 32
        } else {
            y
        };
        if fx != fy {
            assert(folded(a@[i as int]) != folded(b@[i as int]));
            return false;
        }
        i = i + 1;
    }
    true
}

/// Reads a method name, in any case of its letters.
pub fn parse_method(s: &str) -> (r: Option<Method>)
    ensures
        r == method_named(s@),
{
    proof {
        reveal_strlit("GET");
        reveal_strlit("POST");
        reveal_strlit("PUT");
        reveal_strlit("PATCH");
        reveal_strlit("HEAD");
        reveal_strlit("DELETE");
    }
    assert("GET"@ =~= seq!['G', 'E', 'T']);
    assert("POST"@ =~= seq!['P', 'O', 'S', 'T']);
    assert("PUT"@ =~= seq!['P', 'U', 'T']);
    assert("PATCH"@ =~= seq!['P', 'A', 'T', 'C', 'H']);
    assert("HEAD"@ =~= seq!['H', 'E', 'A', 'D']);
    assert("DELETE"@ =~= seq!['D', 'E', 'L', 'E', 'T', 'E']);
    if same_ignoring_ascii_case(s, "GET") {
        Some(Method::Get)
    } else if same_ignoring_ascii_case(s, "POST") {
        Some(Method::Post)
    } else if same_ignoring_ascii_case(s, "PUT") {
        Some(Method::Put)
    } else if same_ignoring_ascii_case(s, "PATCH") {
        Some(Method::Patch)
    } else if same_ignoring_ascii_case(s, "HEAD") {
        Some(Method::Head)
    } else if same_ignoring_ascii_case(s, "DELETE") {
        Some(Method::Delete)
    } else {
        None
    }
}

/// Two spellings of a name that differ only in the case of ASCII letters name
/// the same method.
pub proof fn lemma_method_ignores_case(s: Seq<char>, t: Seq<char>)
    requires
        eq_ignoring_ascii_case(s, t),
    ensures
        method_named(s) == method_named(t),
{
    let names = seq![
        seq!['G', 'E', 'T'],
        seq!['P', 'O', 'S', 'T'],
        seq!['P', 'U', 'T'],
        seq!['P', 'A', 'T', 'C', 'H'],
        seq!['H', 'E', 'A', 'D'],
        seq!['D', 'E', 'L', 'E', 'T', 'E'],
    ];
    assert forall|k: int| 0 <= k < 6 implies eq_ignoring_ascii_case(s, #[trigger] names[k])
        == eq_ignoring_ascii_case(t, names[k]) by {
        let n = names[k];
        if eq_ignoring_ascii_case(s, n) {
            assert forall|i: int| 0 <= i < t.len() implies folded(#[trigger] t[i]) == folded(
                n[i],
            ) by {
                assert(folded(s[i]) == folded(t[i]));
            }
        }
        if eq_ignoring_ascii_case(t, n) {
            assert forall|i: int| 0 <= i < s.len() implies folded(#[trigger] s[i]) == folded(
                n[i],
            ) by {
                assert(folded(s[i]) == folded(t[i]));
            }
        }
    }
    assert(names[0] == seq!['G', 'E', 'T']);
    assert(names[1] == seq!['P', 'O', 'S', 'T']);
    assert(names[2] == seq!['P', 'U', 'T']);
    assert(names[3] == seq!['P', 'A', 'T', 'C', 'H']);
    assert(names[4] == seq!['H', 'E', 'A', 'D']);
    assert(names[5] == seq!['D', 'E', 'L', 'E', 'T', 'E']);
}

} // verus!
