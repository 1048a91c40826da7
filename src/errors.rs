use vstd::prelude::*;

verus! {

/// Errors of the pricing pipeline. Each carries the text of its cause.
#[derive(Clone, Debug, PartialEq, Eq)]
pub enum OrderPickerErr {
    /// Staging the request input failed.
    FetchInputErr(String),
    /// Staging the program image failed.
    FetchImageErr(String),
    /// The guest panicked during preflight.
    GuestPanic(String),
    /// The request failed validation.
    RequestError(String),
    /// A balance, gas-price or database read failed.
    RpcErr(String),
    /// Anything else.
    UnexpectedErr(String),
}

impl OrderPickerErr {
    /// The classification tag that each kind of error is reported under.
    pub open spec fn spec_code(&self) -> Seq<char> {
        match self {
            OrderPickerErr::FetchInputErr(_) => "[B-OP-001]"@,
            OrderPickerErr::FetchImageErr(_) => "[B-OP-002]"@,
            OrderPickerErr::GuestPanic(_) => "[B-OP-003]"@,
            OrderPickerErr::RequestError(_) => "[B-OP-004]"@,
            OrderPickerErr::RpcErr(_) => "[B-OP-005]"@,
            OrderPickerErr::UnexpectedErr(_) => "[B-OP-500]"@,
        }
    }

    /// The classification tag of this error.
    pub fn code(&self) -> (r: &'static str)
        ensures
            r@ == self.spec_code(),
    {
        match self {
            OrderPickerErr::FetchInputErr(_) => "[B-OP-001]",
            OrderPickerErr::FetchImageErr(_) => "[B-OP-002]",
            OrderPickerErr::GuestPanic(_) => "[B-OP-003]",
            OrderPickerErr::RequestError(_) => "[B-OP-004]",
            OrderPickerErr::RpcErr(_) => "[B-OP-005]",
            OrderPickerErr::UnexpectedErr(_) => "[B-OP-500]",
        }
    }

    /// The text of the underlying cause.
    pub fn detail(&self) -> (r: &String)
        ensures
            match self {
                OrderPickerErr::FetchInputErr(m) => r == m,
                OrderPickerErr::FetchImageErr(m) => r == m,
                OrderPickerErr::GuestPanic(m) => r == m,
                OrderPickerErr::RequestError(m) => r == m,
                OrderPickerErr::RpcErr(m) => r == m,
                OrderPickerErr::UnexpectedErr(m) => r == m,
            },
    {
        match self {
            OrderPickerErr::FetchInputErr(m) => m,
            OrderPickerErr::FetchImageErr(m) => m,
            OrderPickerErr::GuestPanic(m) => m,
            OrderPickerErr::RequestError(m) => m,
            OrderPickerErr::RpcErr(m) => m,
            OrderPickerErr::UnexpectedErr(m) => m,
        }
    }
}

} // verus!
