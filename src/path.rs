//! Dotted selectors, like `.outer.inner.12`, that address a record inside another.
use crate::record::Record;
use crate::text::push_char;
use vstd::prelude::*;

verus! {

/// One component of a data path.
#[derive(Debug, PartialEq)]
pub enum Selector {
    /// An index into an array, or an integer map key.
    Index(u64),
    /// A text map key.
    Key(String),
}

/// A selector's content, for contracts.
pub enum Seg {
    Index(u64),
    Key(Seq<char>),
}

impl View for Selector {
    type V = Seg;

    open spec fn view(&self) -> Seg {
        match self {
            Selector::Index(n) => Seg::Index(*n),
            Selector::Key(k) => Seg::Key(k@),
        }
    }
}

/// Whether `c` is an ASCII decimal digit.
pub open spec fn is_digit(c: char) -> bool {
    '0' <= c && c <= '9'
}

/// The number that a sequence of decimal digits writes.
pub open spec fn digits_value(s: Seq<char>) -> nat
    decreases s.len(),
{
    if s.len() == 0 {
        0
    } else {
        digits_value(s.drop_last()) * 10 + ((s.last() as u32 - '0' as u32) as nat)
    }
}

/// The characters after an optional leading `+`.
pub open spec fn unsigned_part(s: Seq<char>) -> Seq<char> {
    if s.len() > 0 && s[0] == '+' {
        s.drop_first()
    } else {
        s
    }
}

/// Whether every character is a decimal digit.
pub open spec fn all_digits(d: Seq<char>) -> bool {
    forall|i: int| 0 <= i < d.len() ==> is_digit(#[trigger] d[i])
}

/// What std's `u64::from_str` reads: an optional `+`, then one or more
/// decimal digits whose value fits in 64 bits.
pub open spec fn spec_parse_u64(s: Seq<char>) -> Option<u64> {
    let d = unsigned_part(s);
    if d.len() > 0 && all_digits(d) && digits_value(d) <= u64::MAX {
        Some(digits_value(d) as u64)
    } else {
        None
    }
}

/// A prefix of decimal digits writes at most the number the whole does.
proof fn lemma_digits_prefix(s: Seq<char>, k: int)
    requires
        0 <= k <= s.len(),
        forall|i: int| 0 <= i < s.len() ==> is_digit(#[trigger] s[i]),
    ensures
        digits_value(s.subrange(0, k)) <= digits_value(s),
    decreases s.len() - k,
{
    if k < s.len() {
        let t = s.subrange(0, k + 1);
        assert(t.drop_last() =~= s.subrange(0, k));
        assert(is_digit(t.last()));
        lemma_digits_prefix(s, k + 1);
    } else {
        assert(s.subrange(0, k) =~= s);
    }
}

/// Reads a number as `u64::from_str` does: an optional `+`, then one or
/// more decimal digits whose value fits in 64 bits.
fn parse_u64(s: &str) -> (r: Option<u64>)
    ensures
        r == spec_parse_u64(s@),
{
    let n = s.unicode_len();
    let mut i: usize = 0;
    if n > 0 && s.get_char(0) == '+' {
        i = 1;
    }
    let ghost d = unsigned_part(s@);
    assert(d =~= s@.subrange(i as int, n as int));
    if i == n {
        return None;
    }
    let mut v: u64 = 0;
    let mut j: usize = i;
    assert(s@.subrange(i as int, i as int) =~= Seq::<char>::empty());
    while j < n
        invariant
            n == s@.len(),
            i < n,
            i <= j <= n,
            d == s@.subrange(i as int, n as int),
            d == unsigned_part(s@),
            v as nat == digits_value(s@.subrange(i as int, j as int)),
            forall|k: int| i <= k < j ==> is_digit(#[trigger] s@[k]),
        decreases n - j,
    {
        let c = s.get_char(j);
        if !('0' <= c && c <= '9') {
            assert(!is_digit(d[j - i]));
            assert(!all_digits(d));
            assert(spec_parse_u64(s@) is None);
            return None;
        }
        let dv = (c as u32 - '0' as u32) as u64;
        let w: u128 = v as u128 * 10 + dv as u128;
        let ghost pre = s@.subrange(i as int, j + 1);
        assert(pre.drop_last() =~= s@.subrange(i as int, j as int));
        assert(digits_value(pre) == w);
        if w > u64::MAX as u128 {
            proof {
                if all_digits(d) {
                    lemma_digits_prefix(d, j + 1 - i);
                    assert(d.subrange(0, j + 1 - i) =~= pre);
                    assert(digits_value(d) > u64::MAX);
                }
                assert(spec_parse_u64(s@) is None);
            }
            return None;
        }
        v = w as u64;
        j = j + 1;
    }
    assert(s@.subrange(i as int, j as int) =~= d);
    Some(v)
}

/// The selector a path segment stands for: an index when it reads as a
/// non-negative integer, a text key otherwise.
pub open spec fn classify(seg: Seq<char>) -> Seg {
    match spec_parse_u64(seg) {
        Some(n) => Seg::Index(n),
        None => Seg::Key(seg),
    }
}

/// The selector for the segment collected so far, if it is not empty.
pub open spec fn flush(cur: Seq<char>) -> Seq<Seg> {
    if cur.len() == 0 {
        seq![]
    } else {
        seq![classify(cur)]
    }
}

/// The selectors of `s`, where `cur` holds the characters of a segment
/// begun before `s`: `s` is split on `.` and empty segments are dropped.
pub open spec fn path_from(s: Seq<char>, cur: Seq<char>) -> Seq<Seg>
    decreases s.len(),
{
    if s.len() == 0 {
        flush(cur)
    } else if s[0] == '.' {
        flush(cur) + path_from(s.drop_first(), seq![])
    } else {
        path_from(s.drop_first(), cur.push(s[0]))
    }
}

/// The selectors that a dotted path string stands for.
pub open spec fn spec_parse_path(s: Seq<char>) -> Seq<Seg> {
    path_from(s, seq![])
}

/// Whether a map key is the one a selector names.
pub open spec fn key_matches(key: Record, sel: Seg) -> bool {
    match (key, sel) {
        (Record::Integer(i), Seg::Index(n)) => i == n as int,
        (Record::Text(t), Seg::Key(k)) => t@ == k,
        _ => false,
    }
}

/// The value of the first entry whose key a selector names, or null.
pub open spec fn map_lookup(entries: Seq<(Record, Record)>, sel: Seg) -> Record
    decreases entries.len(),
{
    if entries.len() == 0 {
        Record::Null
    } else if key_matches(entries[0].0, sel) {
        entries[0].1
    } else {
        map_lookup(entries.drop_first(), sel)
    }
}

/// The record that a path addresses inside `v`. Tags are unwrapped without
/// using a selector; an empty path gives the record itself; an index
/// selects an array element, or null when out of range; any selector picks
/// the first matching map entry, or null; anything else gives null.
pub open spec fn spec_get(path: Seq<Seg>, v: Record) -> Record
    decreases path.len(), v,
{
    match v {
        Record::Tag(_, inner) => spec_get(path, *inner),
        _ => if path.len() == 0 {
            v
        } else {
            match v {
                Record::Array(a) => match path[0] {
                    Seg::Index(n) => if (n as int) < a@.len() {
                        spec_get(path.drop_first(), a@[n as int])
                    } else {
                        Record::Null
                    },
                    Seg::Key(_) => Record::Null,
                },
                Record::Dict(m) => spec_get(path.drop_first(), map_lookup(m@, path[0])),
                _ => Record::Null,
            }
        },
    }
}

/// A tag is transparent to every path: selecting inside a tagged record is
/// selecting inside the record it marks.
pub proof fn lemma_tag_transparent(t: u64, x: Record, p: Seq<Seg>)
    ensures
        spec_get(p, Record::Tag(t, Box::new(x))) == spec_get(p, x),
{
}

/// The empty path string selects every untagged record itself (a tagged
/// record gives the record inside its tags), and null stays null under
/// every path.
pub proof fn lemma_identity_and_null(v: Record, p: Seq<Seg>)
    ensures
        spec_parse_path(Seq::<char>::empty()) == Seq::<Seg>::empty(),
        !(v is Tag) ==> spec_get(spec_parse_path(Seq::<char>::empty()), v) == v,
        spec_get(p, Record::Null) == Record::Null,
{
    assert(spec_parse_path(Seq::<char>::empty()) =~= Seq::<Seg>::empty());
}

/// A path made of dots alone is the empty path.
pub proof fn lemma_dots_only(s: Seq<char>)
    requires
        forall|i: int| 0 <= i < s.len() ==> s[i] == '.',
    ensures
        spec_parse_path(s) == Seq::<Seg>::empty(),
    decreases s.len(),
{
    if s.len() > 0 {
        lemma_dots_only(s.drop_first());
        assert(flush(Seq::<char>::empty()) =~= Seq::<Seg>::empty());
        assert(spec_parse_path(s) =~= Seq::<Seg>::empty());
    } else {
        assert(spec_parse_path(s) =~= Seq::<Seg>::empty());
    }
}

/// A path to nested data, like `.outer.inner.12.field`.
#[derive(Debug)]
pub struct DataPath(pub Vec<Selector>);

impl View for DataPath {
    type V = Seq<Seg>;

    open spec fn view(&self) -> Seq<Seg> {
        self.0@.map_values(|s: Selector| s@)
    }
}

impl DataPath {
    /// Reads a dotted path such as `outer.inner.1`: the string is split on
    /// `.`, empty segments are dropped, and each segment that reads as a
    /// non-negative integer is an index, any other a text key.
    pub fn parse(path: &str) -> (r: DataPath)
        ensures
            r@ == spec_parse_path(path@),
    {
        let n = path.unicode_len();
        let mut parts: Vec<Selector> = Vec::new();
        let mut cur = String::new();
        let mut i: usize = 0;
        assert(path@.subrange(0, n as int) == path@);
        assert(parts@.map_values(|s: Selector| s@) + path_from(path@, cur@) =~= path_from(
            path@,
            cur@,
        ));
        while i < n
            invariant
                n == path@.len(),
                i <= n,
                parts@.map_values(|s: Selector| s@) + path_from(
                    path@.subrange(i as int, n as int),
                    cur@,
                ) == spec_parse_path(path@),
            decreases n - i,
        {
            let c = path.get_char(i);
            let ghost rest = path@.subrange(i as int, n as int);
            assert(rest[0] == c);
            assert(rest.drop_first() == path@.subrange(i + 1, n as int));
            if c == '.' {
                let ghost before = parts@;
                let ghost f = flush(cur@);
                if cur.unicode_len() > 0 {
                    let sel = segment_selector(cur);
                    parts.push(sel);
                }
                assert(parts@.map_values(|s: Selector| s@) =~= before.map_values(|s: Selector| s@)
                    + f);
                cur = String::new();
                assert(cur@ == Seq::<char>::empty());
                assert(parts@.map_values(|s: Selector| s@) + path_from(
                    path@.subrange(i + 1, n as int),
                    cur@,
                ) =~= before.map_values(|s: Selector| s@) + (f + path_from(
                    path@.subrange(i + 1, n as int),
                    seq![],
                )));
            } else {
                push_char(&mut cur, c);
            }
            i = i + 1;
        }
        let ghost before = parts@;
        let ghost f = flush(cur@);
        if cur.unicode_len() > 0 {
            let sel = segment_selector(cur);
            parts.push(sel);
        }
        assert(parts@.map_values(|s: Selector| s@) =~= before.map_values(|s: Selector| s@) + f);
        DataPath(parts)
    }
}

impl DataPath {
    /// The first selector and the path after it, if the path is not empty.
    pub fn split_head(&self) -> (r: Option<(Selector, DataPath)>)
        ensures
            self@.len() == 0 ==> r is None,
            self@.len() > 0 ==> (r matches Some((head, tail)) && head@ == self@[0] && tail@
                == self@.drop_first()),
    {
        if self.0.len() == 0 {
            return None;
        }
        let head = copy_selector(&self.0[0]);
        let mut tail: Vec<Selector> = Vec::new();
        let mut i: usize = 1;
        while i < self.0.len()
            invariant
                1 <= i <= self.0@.len(),
                tail@.map_values(|s: Selector| s@) == self@.subrange(1, i as int),
            decreases self.0.len() - i,
        {
            let ghost before = tail@;
            tail.push(copy_selector(&self.0[i]));
            assert(tail@.map_values(|s: Selector| s@) =~= before.map_values(|s: Selector| s@).push(
                self@[i as int],
            ));
            assert(self@.subrange(1, i + 1) =~= self@.subrange(1, i as int).push(self@[i as int]));
            i = i + 1;
        }
        assert(self@.subrange(1, i as int) =~= self@.drop_first());
        Some((head, DataPath(tail)))
    }

    /// The record this path addresses inside `value`, or null when there is
    /// none. Tags are passed through transparently.
    pub fn get_from(&self, value: Record) -> (r: Record)
        ensures
            r == spec_get(self@, value),
    {
        assert(self@.subrange(0, self@.len() as int) == self@);
        get_at(&self.0, 0, value)
    }
}

/// The record that the selectors of `path` from index `i` on address in `value`.
fn get_at(path: &Vec<Selector>, i: usize, value: Record) -> (r: Record)
    requires
        i <= path@.len(),
    ensures
        r == spec_get(
            path@.map_values(|s: Selector| s@).subrange(i as int, path@.len() as int),
            value,
        ),
    decreases path@.len() - i, value,
{
    let ghost p = path@.map_values(|s: Selector| s@).subrange(i as int, path@.len() as int);
    match value {
        Record::Tag(t, inner) => get_at(path, i, *inner),
        other => {
            if i == path.len() {
                return other;
            }
            assert(p[0] == path@[i as int]@);
            assert(p.drop_first() == path@.map_values(|s: Selector| s@).subrange(
                i + 1,
                path@.len() as int,
            ));
            match other {
                Record::Array(a) => match &path[i] {
                    Selector::Index(n) => {
                        if (*n as u128) < (a.len() as u128) {
                            let mut a = a;
                            let elem = a.swap_remove(*n as usize);
                            get_at(path, i + 1, elem)
                        } else {
                            Record::Null
                        }
                    },
                    Selector::Key(_) => Record::Null,
                },
                Record::Dict(m) => {
                    let inner = lookup(m, &path[i]);
                    get_at(path, i + 1, inner)
                },
                _ => Record::Null,
            }
        },
    }
}

/// The value of the first entry whose key `sel` names, or null.
fn lookup(dict: Vec<(Record, Record)>, sel: &Selector) -> (r: Record)
    ensures
        r == map_lookup(dict@, sel@),
{
    let ghost all = dict@;
    let mut entries = dict;
    let mut j: usize = 0;
    assert(all.subrange(0, all.len() as int) == all);
    while j < entries.len()
        invariant
            entries@ == all,
            all == dict@,
            j <= all.len(),
            map_lookup(all, sel@) == map_lookup(all.subrange(j as int, all.len() as int), sel@),
        decreases entries.len() - j,
    {
        let ghost rest = all.subrange(j as int, all.len() as int);
        assert(rest[0] == all[j as int]);
        if key_selects(&entries[j].0, sel) {
            let (_, v) = entries.swap_remove(j);
            return v;
        }
        assert(rest.drop_first() == all.subrange(j + 1, all.len() as int));
        j = j + 1;
    }
    Record::Null
}

/// Whether a map key is the one a selector names.
fn key_selects(key: &Record, sel: &Selector) -> (r: bool)
    ensures
        r == key_matches(*key, sel@),
{
    match (key, sel) {
        (Record::Integer(i), Selector::Index(n)) => *i == *n as i128,
        (Record::Text(t), Selector::Key(k)) => *t == *k,
        _ => false,
    }
}

/// A copy of a selector.
fn copy_selector(s: &Selector) -> (r: Selector)
    ensures
        r@ == s@,
{
    match s {
        Selector::Index(n) => Selector::Index(*n),
        Selector::Key(k) => Selector::Key(k.clone()),
    }
}

/// The selector for one non-empty path segment.
fn segment_selector(seg: String) -> (r: Selector)
    ensures
        r@ == classify(seg@),
{
    match parse_u64(seg.as_str()) {
        Some(n) => Selector::Index(n),
        None => Selector::Key(seg),
    }
}

} // verus!
