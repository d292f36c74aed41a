use vstd::prelude::*;

verus! {

/// How a response status is shown, by the leading digit of its code.
#[derive(Clone, Copy, Debug, PartialEq, Eq, Structural)]
pub enum StatusClass {
    Success,
    Redirect,
    ClientError,
    ServerError,
    Other,
}

/// The first decimal digit of `n`.
pub open spec fn leading_digit(n: nat) -> nat
    decreases n,
{
    if n < 10 {
        n
    } else {
        leading_digit(n / 10)
    }
}

pub open spec fn status_class_of(code: nat) -> StatusClass {
    let d = leading_digit(code);
    if d == 2 {
        StatusClass::Success
    } else if d == 3 {
        StatusClass::Redirect
    } else if d == 4 {
        StatusClass::ClientError
    } else if d == 5 {
        StatusClass::ServerError
    } else {
        StatusClass::Other
    }
}

/// Classifies a status code by the first digit of its decimal form.
pub fn classify_status(code: u16) -> (r: StatusClass)
    ensures
        r == status_class_of(code as nat),
{
    let mut n: u16 = code;
    while n >= 10
        invariant
            leading_digit(n as nat) == leading_digit(code as nat),
        decreases n,
    {
        n = n / 10;
    }
    if n == 2 {
        StatusClass::Success
    } else if n == 3 {
        StatusClass::Redirect
    } else if n == 4 {
        StatusClass::ClientError
    } else if n == 5 {
        StatusClass::ServerError
    } else {
        StatusClass::Other
    }
}

} // verus!
