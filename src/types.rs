//! Pipe content types and the connection relation between them.
use crate::text::{lowercase, lower_of, spec_trim, trim};
use vstd::prelude::*;

verus! {

/// The kind of data a stage produces on stdout or expects on stdin.
#[derive(Clone, Copy, Debug, PartialEq, Eq, Structural)]
pub enum Ty {
    /// Accepts data from any source.
    Any,
    /// Binary data of unknown shape.
    Unknown,
    /// No data at all.
    Nothing,
    /// A stream of self-describing structured records.
    Cbor,
    /// Human-readable lines of text.
    Text,
    /// Text holding terminal escape codes.
    Tty,
}

/// Whether output of type `from` may feed an input of type `to`.
pub open spec fn connects(from: Ty, to: Ty) -> bool {
    to == Ty::Any || from == to || to == Ty::Nothing
}

/// Decides whether output of type `from` may be piped into an input of type `to`.
pub fn can_connect(from: Ty, to: Ty) -> (r: bool)
    ensures
        r == connects(from, to),
{
    match (from, to) {
        (_, Ty::Any) => true,
        (x, y) if x == y => true,
        (_, Ty::Nothing) => true,
        _ => false,
    }
}

impl Ty {
    /// The name under which the type is shown to users.
    pub open spec fn spec_name(self) -> Seq<char> {
        match self {
            Ty::Any => "[any]"@,
            Ty::Unknown => "[unknown]"@,
            Ty::Nothing => "[nothing]"@,
            Ty::Cbor => "cbor"@,
            Ty::Text => "text"@,
            Ty::Tty => "tty"@,
        }
    }

    /// The type that a user may name, from its already normalised spelling.
    pub open spec fn spec_named(s: Seq<char>) -> Option<Ty> {
        if s == "cbor"@ {
            Some(Ty::Cbor)
        } else if s == "text"@ {
            Some(Ty::Text)
        } else if s == "tty"@ {
            Some(Ty::Tty)
        } else {
            None
        }
    }

    /// The type that `parse` reads from a user's spelling: surrounding
    /// whitespace is dropped and case is ignored.
    pub open spec fn spec_parse(s: Seq<char>) -> Option<Ty> {
        Ty::spec_named(lower_of(spec_trim(s)))
    }

    /// The name under which the type is shown to users.
    pub fn name(&self) -> (r: &'static str)
        ensures
            r@ == self.spec_name(),
    {
        match self {
            Ty::Any => "[any]",
            Ty::Unknown => "[unknown]",
            Ty::Nothing => "[nothing]",
            Ty::Cbor => "cbor",
            Ty::Text => "text",
            Ty::Tty => "tty",
        }
    }

    /// Reads a type name typed by a user (`cbor`, `text` or `tty`, in any
    /// case, with surrounding whitespace). The other types cannot be named.
    pub fn parse(s: &str) -> (r: Option<Ty>)
        ensures
            r == Ty::spec_parse(s@),
    {
        let lower = lowercase(trim(s));
        let l = lower.as_str();
        if str_eq(l, "cbor") {
            Some(Ty::Cbor)
        } else if str_eq(l, "text") {
            Some(Ty::Text)
        } else if str_eq(l, "tty") {
            Some(Ty::Tty)
        } else {
            None
        }
    }
}

/// Compares two strings character by character.
pub fn str_eq(a: &str, b: &str) -> (r: bool)
    ensures
        r == (a@ == b@),
{
    let n = a.unicode_len();
    let m = b.unicode_len();
    if n != m {
        return false;
    }
    let mut i: usize = 0;
    while i < n
        invariant
            n == a@.len(),
            m == b@.len(),
            n == m,
            i <= n,
            a@.subrange(0, i as int) == b@.subrange(0, i as int),
        decreases n - i,
    {
        if a.get_char(i) != b.get_char(i) {
            assert(a@[i as int] != b@[i as int]);
            return false;
        }
        assert(a@.subrange(0, i + 1) == a@.subrange(0, i as int).push(a@[i as int]));
        assert(b@.subrange(0, i + 1) == b@.subrange(0, i as int).push(b@[i as int]));
        i = i + 1;
    }
    assert(a@ == a@.subrange(0, n as int));
    assert(b@ == b@.subrange(0, n as int));
    true
}

/// Any type connects into `Any` and into `Nothing`, every type connects to
/// itself, and no other pair connects.
pub proof fn lemma_connection_laws(from: Ty, to: Ty)
    ensures
        connects(from, Ty::Any),
        connects(from, Ty::Nothing),
        connects(from, from),
        connects(from, to) <==> (to == Ty::Any || to == Ty::Nothing || from == to),
{
}

} // verus!
