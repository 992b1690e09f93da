//! Logging of HTTP requests, with passwords kept out of the log.

use vstd::prelude::*;

use crate::text::str_eq;

verus! {

/// Verbosity of a log record.
#[derive(Debug, Clone, Copy, PartialEq, Eq, Structural)]
pub enum LogLevel {
    Error,
    Warn,
    Info,
    Debug,
    Trace,
}

/// Adds logging to an HTTP client.
#[derive(Debug, Clone)]
pub struct LoggingClientDecorator<C> {
    client: C,
    level: LogLevel,
}

impl<C> LoggingClientDecorator<C> {
    pub closed spec fn client_spec(&self) -> C {
        self.client
    }

    pub closed spec fn level_spec(&self) -> LogLevel {
        self.level
    }

    /// Decorates `client`, logging at debug level.
    pub fn new(client: C) -> (r: Self)
        ensures
            r.client_spec() == client,
            r.level_spec() == LogLevel::Debug,
    {
        LoggingClientDecorator { client, level: LogLevel::Debug }
    }

    pub fn with_level(self, level: LogLevel) -> (r: Self)
        ensures
            r.client_spec() == self.client_spec(),
            r.level_spec() == level,
    {
        LoggingClientDecorator { level, ..self }
    }

    pub fn client(&self) -> (r: &C)
        ensures
            *r == self.client_spec(),
    {
        &self.client
    }

    pub fn level(&self) -> (r: LogLevel)
        ensures
            r == self.level_spec(),
    {
        self.level
    }
}

/// A form field as it is logged: the value of a `password` field is replaced.
pub open spec fn redacted(field: (Seq<char>, Seq<char>)) -> (Seq<char>, Seq<char>) {
    if field.0 == "password"@ {
        (field.0, "[REDACTED]"@)
    } else {
        field
    }
}

pub open spec fn str_pair_view<'a>(p: (&'a str, &'a str)) -> (Seq<char>, Seq<char>) {
    (p.0@, p.1@)
}

/// The form as it is logged: every `password` value replaced by `[REDACTED]`, all else kept.
pub fn redact_form<'a>(form: &[(&'a str, &'a str)]) -> (r: Vec<(&'a str, &'a str)>)
    ensures
        r@.len() == form@.len(),
        forall|i: int|
            0 <= i < form@.len() ==> str_pair_view(#[trigger] r@[i]) == redacted(
                str_pair_view(form@[i]),
            ),
{
    proof {
        reveal_strlit("password");
        reveal_strlit("[REDACTED]");
    }
    let mut out: Vec<(&'a str, &'a str)> = Vec::new();
    let mut i: usize = 0;
    while i < form.len()
        invariant
            i <= form@.len(),
            out@.len() == i,
            forall|k: int|
                0 <= k < i ==> str_pair_view(#[trigger] out@[k]) == redacted(
                    str_pair_view(form@[k]),
                ),
        decreases form@.len() - i,
    {
        let (key, value) = form[i];
        if str_eq(key, "password") {
            out.push((key, "[REDACTED]"));
        } else {
            out.push((key, value));
        }
        i = i + 1;
    }
    out
}

} // verus!
