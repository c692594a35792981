use vstd::prelude::*;

verus! {

/// The error taxonomy every use case reports. Internal store errors are
/// collapsed into `Failed` so no internal detail leaks to a caller.
#[derive(Clone, Copy, Debug, PartialEq, Eq, Structural)]
pub enum AuthError {
    /// Missing or invalid credential, bad password, disabled or expired user.
    BadAuth,
    /// A requested scope is not owned and/or not active.
    BadScopes,
    /// The resolved token is past its expiration.
    Expired,
    /// Any internal error, deliberately generic.
    Failed,
}

impl AuthError {
    /// The wire code carried in an error envelope.
    pub fn code(&self) -> (r: &'static str)
        ensures
            r@ == match *self {
                AuthError::BadAuth => "auth failure"@,
                AuthError::BadScopes => "bad scopes"@,
                AuthError::Expired => "expired"@,
                AuthError::Failed => "failed"@,
            },
    {
        match *self {
            AuthError::BadAuth => "auth failure",
            AuthError::BadScopes => "bad scopes",
            AuthError::Expired => "expired",
            AuthError::Failed => "failed",
        }
    }
}

/// The error half of the wire envelope: `{status: "error", result: <code>}`.
#[derive(Clone, Copy, Debug, PartialEq, Eq)]
pub struct JsonError {
    pub status: &'static str,
    pub result: &'static str,
}

impl JsonError {
    pub fn new(msg: &'static str) -> (r: Self)
        ensures
            r.status@ == "error"@,
            r.result == msg,
    {
        JsonError { status: "error", result: msg }
    }
}

/// A payload or a structured error envelope.
pub type JsonRes<T> = Result<T, JsonError>;

pub fn json_err<T>(msg: &'static str) -> (r: Result<T, JsonError>)
    ensures
        r is Err,
        r->Err_0.status@ == "error"@,
        r->Err_0.result == msg,
{
    Err(JsonError::new(msg))
}

pub fn true_or_jerr<T>(ok: bool, okval: T, errmsg: &'static str) -> (r: Result<T, JsonError>)
    ensures
        ok ==> r == Result::<T, JsonError>::Ok(okval),
        !ok ==> r is Err && r->Err_0.status@ == "error"@ && r->Err_0.result == errmsg,
{
    if ok {
        Ok(okval)
    } else {
        json_err(errmsg)
    }
}

/// Like [`true_or_jerr`] but with the service's typed errors.
pub fn true_or_err<T>(ok: bool, okval: T, err: AuthError) -> (r: Result<T, AuthError>)
    ensures
        ok ==> r == Result::<T, AuthError>::Ok(okval),
        !ok ==> r == Result::<T, AuthError>::Err(err),
{
    if ok {
        Ok(okval)
    } else {
        Err(err)
    }
}

/// Render any displayable value as its string form; used to collapse
/// foreign error values into log text.
pub fn errstr<T: core::fmt::Display>(x: T) -> String {
    x.to_string()
}

/// Map the failure case of a fallible value into a wire error.
pub trait IntoJErr<T>: Sized {
    fn map_jerr(self, errmsg: &'static str) -> Result<T, JsonError>;
}

impl<T, E> IntoJErr<T> for Result<T, E> {
    /// The success value passes through unchanged; the error value never
    /// reaches the caller, only the envelope carrying `errmsg` does.
    fn map_jerr(self, errmsg: &'static str) -> (r: Result<T, JsonError>)
        ensures
            self is Ok ==> r is Ok && r->Ok_0 == self->Ok_0,
            self is Err ==> r is Err && r->Err_0.status@ == "error"@ && r->Err_0.result == errmsg,
    {
        match self {
            Ok(x) => Ok(x),
            Err(_) => json_err(errmsg),
        }
    }
}

impl<T> IntoJErr<T> for Option<T> {
    /// The present value passes through unchanged; absence becomes the
    /// envelope carrying `errmsg`.
    fn map_jerr(self, errmsg: &'static str) -> (r: Result<T, JsonError>)
        ensures
            self is Some ==> r is Ok && r->Ok_0 == self->Some_0,
            self is None ==> r is Err && r->Err_0.status@ == "error"@ && r->Err_0.result == errmsg,
    {
        match self {
            Some(x) => Ok(x),
            None => json_err(errmsg),
        }
    }
}

/// Wraps a use-case result into the wire envelope, mapping each typed error
/// to its error code.
pub fn json_res<T>(r: Result<T, AuthError>) -> (out: JsonRes<T>)
    ensures
        r is Ok ==> out == Result::<T, JsonError>::Ok(r->Ok_0),
        r is Err ==> out is Err && out->Err_0.status@ == "error"@ && out->Err_0.result@ == match r->Err_0 {
            AuthError::BadAuth => "auth failure"@,
            AuthError::BadScopes => "bad scopes"@,
            AuthError::Expired => "expired"@,
            AuthError::Failed => "failed"@,
        },
{
    match r {
        Ok(x) => Ok(x),
        Err(e) => json_err(e.code()),
    }
}

} // verus!
