//! The kinds of inotify events that an event mask names.
use inotify::EventMask as InotifyMask;
use vstd::prelude::*;
use vstd::string::*;

use crate::numerals::{
    digits, is_upper_hex_char, lemma_digits_chars, lemma_digits_leading, lemma_digits_value,
    numeral_value, push_digits,
};

verus! {

/// A set of inotify event flags, held as the raw bits of the kernel's mask.
#[derive(Clone, Copy, Debug, PartialEq, Eq, Structural)]
pub struct EventMask {
    pub bits: u32,
}

impl EventMask {
    /// The mask whose bits are exactly `bits`.
    pub fn from_bits_retain(bits: u32) -> (r: EventMask)
        ensures
            r.bits == bits,
    {
        EventMask { bits }
    }

    /// The raw bits of the mask.
    pub fn bits(&self) -> (r: u32)
        ensures
            r == self.bits,
    {
        self.bits
    }

    /// Whether the two masks share at least one flag.
    pub fn intersects(&self, other: &EventMask) -> (r: bool)
        ensures
            r == (self.bits & other.bits != 0),
    {
        self.bits & other.bits != 0
    }
}


/// The kind of an inotify event, one per flag of [`EventMask`] that this crate names.
#[derive(Clone, Copy, Debug, PartialEq, Eq, Structural)]
pub enum EventKind {
    Access,
    Attrib,
    CloseWrite,
    CloseNoWrite,
    Create,
    Delete,
    DeleteSelf,
    Modify,
    MoveSelf,
    MovedFrom,
    MovedTo,
    Open,
    Ignored,
    IsDir,
    QueueOverflow,
    Unmount,
    Unknown(EventMask),
}

/// The number of flags that have a kind of their own.
pub const KNOWN_KIND_COUNT: usize = 16;

/// The flag at position `i` of the kind table (the values of `inotify::EventMask`'s
/// constants, which are those of the kernel's `IN_*` flags).
pub open spec fn bit_at(i: int) -> u32 {
    if i == 0 {
        0x0000_0001u32  // ACCESS
    } else if i == 1 {
        0x0000_0004u32  // ATTRIB
    } else if i == 2 {
        0x0000_0010u32  // CLOSE_NOWRITE
    } else if i == 3 {
        0x0000_0008u32  // CLOSE_WRITE
    } else if i == 4 {
        0x0000_0100u32  // CREATE
    } else if i == 5 {
        0x0000_0200u32  // DELETE
    } else if i == 6 {
        0x0000_0400u32  // DELETE_SELF
    } else if i == 7 {
        0x0000_0002u32  // MODIFY
    } else if i == 8 {
        0x0000_0800u32  // MOVE_SELF
    } else if i == 9 {
        0x0000_0040u32  // MOVED_FROM
    } else if i == 10 {
        0x0000_0080u32  // MOVED_TO
    } else if i == 11 {
        0x0000_0020u32  // OPEN
    } else if i == 12 {
        0x0000_8000u32  // IGNORED
    } else if i == 13 {
        0x4000_0000u32  // ISDIR
    } else if i == 14 {
        0x0000_4000u32  // Q_OVERFLOW
    } else if i == 15 {
        0x0000_2000u32  // UNMOUNT
    } else {
        0u32
    }
}

/// The kind at position `i` of the kind table.
pub open spec fn kind_at(i: int) -> EventKind {
    if i == 0 {
        EventKind::Access
    } else if i == 1 {
        EventKind::Attrib
    } else if i == 2 {
        EventKind::CloseNoWrite
    } else if i == 3 {
        EventKind::CloseWrite
    } else if i == 4 {
        EventKind::Create
    } else if i == 5 {
        EventKind::Delete
    } else if i == 6 {
        EventKind::DeleteSelf
    } else if i == 7 {
        EventKind::Modify
    } else if i == 8 {
        EventKind::MoveSelf
    } else if i == 9 {
        EventKind::MovedFrom
    } else if i == 10 {
        EventKind::MovedTo
    } else if i == 11 {
        EventKind::Open
    } else if i == 12 {
        EventKind::Ignored
    } else if i == 13 {
        EventKind::IsDir
    } else if i == 14 {
        EventKind::QueueOverflow
    } else {
        EventKind::Unmount
    }
}

/// The flag that a kind stands for; `Unknown` stands for no single flag.
pub open spec fn kind_bit(k: EventKind) -> u32 {
    match k {
        EventKind::Access => bit_at(0),
        EventKind::Attrib => bit_at(1),
        EventKind::CloseNoWrite => bit_at(2),
        EventKind::CloseWrite => bit_at(3),
        EventKind::Create => bit_at(4),
        EventKind::Delete => bit_at(5),
        EventKind::DeleteSelf => bit_at(6),
        EventKind::Modify => bit_at(7),
        EventKind::MoveSelf => bit_at(8),
        EventKind::MovedFrom => bit_at(9),
        EventKind::MovedTo => bit_at(10),
        EventKind::Open => bit_at(11),
        EventKind::Ignored => bit_at(12),
        EventKind::IsDir => bit_at(13),
        EventKind::QueueOverflow => bit_at(14),
        EventKind::Unmount => bit_at(15),
        EventKind::Unknown(_) => 0u32,
    }
}

/// The named kinds, in table order.
pub open spec fn known_kinds() -> Seq<EventKind> {
    Seq::new(16, |i: int| kind_at(i))
}

/// Whether mask bits `m` share the flag at table position `i`.
pub open spec fn hits(m: u32, i: int) -> bool {
    m & bit_at(i) != 0
}

/// Whether table position `i` is the first one whose flag `m` holds.
pub open spec fn first_hit(m: u32, i: int) -> bool {
    &&& 0 <= i < 16
    &&& hits(m, i)
    &&& forall|j: int| 0 <= j < i ==> !#[trigger] hits(m, j)
}

/// The test "mask bits `m` hold the flag of kind `k`".
pub open spec fn holds_kind(m: u32) -> spec_fn(EventKind) -> bool {
    |k: EventKind| m & kind_bit(k) != 0
}

/// The kinds that mask bits `m` name: the named kinds, in table order, whose flag `m` holds.
pub open spec fn event_kinds_of(m: u32) -> Seq<EventKind> {
    known_kinds().filter(holds_kind(m))
}

/// The name of a kind: the name of its variant.
pub open spec fn kind_name(k: EventKind) -> Seq<char> {
    match k {
        EventKind::Access => "Access"@,
        EventKind::Attrib => "Attrib"@,
        EventKind::CloseWrite => "CloseWrite"@,
        EventKind::CloseNoWrite => "CloseNoWrite"@,
        EventKind::Create => "Create"@,
        EventKind::Delete => "Delete"@,
        EventKind::DeleteSelf => "DeleteSelf"@,
        EventKind::Modify => "Modify"@,
        EventKind::MoveSelf => "MoveSelf"@,
        EventKind::MovedFrom => "MovedFrom"@,
        EventKind::MovedTo => "MovedTo"@,
        EventKind::Open => "Open"@,
        EventKind::Ignored => "Ignored"@,
        EventKind::IsDir => "IsDir"@,
        EventKind::QueueOverflow => "QueueOverflow"@,
        EventKind::Unmount => "Unmount"@,
        EventKind::Unknown(_) => "Unknown"@,
    }
}

/// The names of `ks`, in order, separated by commas.
pub open spec fn joined_names(ks: Seq<EventKind>) -> Seq<char>
    decreases ks.len(),
{
    if ks.len() == 0 {
        Seq::empty()
    } else if ks.len() == 1 {
        kind_name(ks[0])
    } else {
        joined_names(ks.drop_last()) + seq![','] + kind_name(ks.last())
    }
}

/// The text that an event's cookie is reported as: its upper-case hexadecimal numeral, or
/// `(none)` for a zero cookie.
pub open spec fn cookie_text(cookie: u32) -> Seq<char> {
    if cookie > 0 {
        digits(cookie as nat, 16)
    } else {
        "(none)"@
    }
}

/// Joining names: no kinds give the empty text.
pub proof fn lemma_joined_names_empty()
    ensures
        joined_names(Seq::<EventKind>::empty()) == Seq::<char>::empty(),
{
}

/// Joining names: a single kind gives its own name, with no separator.
pub proof fn lemma_joined_names_single(k: EventKind)
    ensures
        joined_names(seq![k]) == kind_name(k),
{
}

/// Joining names: a kind after a non-empty list adds a comma and its name to the list's text.
pub proof fn lemma_joined_names_push(ks: Seq<EventKind>, k: EventKind)
    requires
        ks.len() > 0,
    ensures
        joined_names(ks.push(k)) == joined_names(ks) + seq![','] + kind_name(k),
{
    assert(ks.push(k).drop_last() =~= ks);
}

/// Whether `c` is an ASCII letter.
pub open spec fn is_ascii_letter(c: char) -> bool {
    ('A' <= c && c <= 'Z') || ('a' <= c && c <= 'z')
}

/// Every kind's name is a non-empty word of ASCII letters (so it holds no comma).
pub proof fn lemma_kind_name_is_word(k: EventKind)
    ensures
        kind_name(k).len() > 0,
        forall|j: int| 0 <= j < kind_name(k).len() ==> is_ascii_letter(#[trigger] kind_name(k)[j]),
        !kind_name(k).contains(','),
{
    reveal_strlit("Access");
    reveal_strlit("Attrib");
    reveal_strlit("CloseWrite");
    reveal_strlit("CloseNoWrite");
    reveal_strlit("Create");
    reveal_strlit("Delete");
    reveal_strlit("DeleteSelf");
    reveal_strlit("Modify");
    reveal_strlit("MoveSelf");
    reveal_strlit("MovedFrom");
    reveal_strlit("MovedTo");
    reveal_strlit("Open");
    reveal_strlit("Ignored");
    reveal_strlit("IsDir");
    reveal_strlit("QueueOverflow");
    reveal_strlit("Unmount");
    reveal_strlit("Unknown");
    assert forall|j: int| 0 <= j < kind_name(k).len() implies is_ascii_letter(
        #[trigger] kind_name(k)[j],
    ) by {
        match k {
            EventKind::Access => {},
            EventKind::Attrib => {},
            EventKind::CloseWrite => {},
            EventKind::CloseNoWrite => {},
            EventKind::Create => {},
            EventKind::Delete => {},
            EventKind::DeleteSelf => {},
            EventKind::Modify => {},
            EventKind::MoveSelf => {},
            EventKind::MovedFrom => {},
            EventKind::MovedTo => {},
            EventKind::Open => {},
            EventKind::Ignored => {},
            EventKind::IsDir => {},
            EventKind::QueueOverflow => {},
            EventKind::Unmount => {},
            EventKind::Unknown(_) => {},
        }
    }
    if kind_name(k).contains(',') {
        let j = choose|j: int| 0 <= j < kind_name(k).len() && kind_name(k)[j] == ',';
        assert(is_ascii_letter(kind_name(k)[j]));
    }
}

/// The text for a mask holding one table flag alone is that flag's kind name, e.g. `Create`
/// for `CREATE`.
pub proof fn lemma_flags_text_single_flag(i: int)
    requires
        0 <= i < 16,
    ensures
        joined_names(event_kinds_of(bit_at(i))) == kind_name(kind_at(i)),
{
    lemma_event_kinds_single_flag(i);
}

/// The cookie text of a nonzero cookie is its upper-case hexadecimal numeral: it reads back
/// as the cookie in base 16, holds only `0`-`9` and `A`-`F`, and has no leading zero; a zero
/// cookie is `(none)`.
pub proof fn lemma_cookie_text(c: u32)
    ensures
        c > 0 ==> numeral_value(cookie_text(c), 16) == c,
        c > 0 ==> cookie_text(c).len() >= 1 && cookie_text(c)[0] != '0',
        c > 0 ==> forall|j: int|
            0 <= j < cookie_text(c).len() ==> is_upper_hex_char(#[trigger] cookie_text(c)[j]),
        c == 0 ==> cookie_text(c) == "(none)"@,
{
    if c > 0 {
        lemma_digits_value(c as nat, 16);
        lemma_digits_chars(c as nat, 16);
        lemma_digits_leading(c as nat, 16);
    }
}

/// The shift amount of the flag at table position `i`: that flag is `1 << shift_at(i)`.
spec fn shift_at(i: int) -> u32 {
    if i == 0 {
        0u32
    } else if i == 1 {
        2u32
    } else if i == 2 {
        4u32
    } else if i == 3 {
        3u32
    } else if i == 4 {
        8u32
    } else if i == 5 {
        9u32
    } else if i == 6 {
        10u32
    } else if i == 7 {
        1u32
    } else if i == 8 {
        11u32
    } else if i == 9 {
        6u32
    } else if i == 10 {
        7u32
    } else if i == 11 {
        5u32
    } else if i == 12 {
        15u32
    } else if i == 13 {
        30u32
    } else if i == 14 {
        14u32
    } else {
        13u32
    }
}

proof fn lemma_one_bit_masks(a: u32, b: u32)
    by (bit_vector)
    requires
        a < 32,
        b < 32,
    ensures
        ((1u32 << a) & (1u32 << b) != 0) == (a == b),
{
}

proof fn lemma_bit_at_is_shift(i: int)
    requires
        0 <= i < 16,
    ensures
        bit_at(i) == 1u32 << shift_at(i),
        shift_at(i) < 32,
{
    assert(1u32 << 0u32 == 0x0000_0001u32 && 1u32 << 2u32 == 0x0000_0004u32 && 1u32 << 4u32
        == 0x0000_0010u32 && 1u32 << 3u32 == 0x0000_0008u32 && 1u32 << 8u32 == 0x0000_0100u32
        && 1u32 << 9u32 == 0x0000_0200u32 && 1u32 << 10u32 == 0x0000_0400u32 && 1u32 << 1u32
        == 0x0000_0002u32 && 1u32 << 11u32 == 0x0000_0800u32 && 1u32 << 6u32 == 0x0000_0040u32
        && 1u32 << 7u32 == 0x0000_0080u32 && 1u32 << 5u32 == 0x0000_0020u32 && 1u32 << 15u32
        == 0x0000_8000u32 && 1u32 << 30u32 == 0x4000_0000u32 && 1u32 << 14u32 == 0x0000_4000u32
        && 1u32 << 13u32 == 0x0000_2000u32) by (bit_vector);
}

/// Distinct table positions hold disjoint single flags.
proof fn lemma_table_bits_disjoint(i: int, j: int)
    requires
        0 <= i < 16,
        0 <= j < 16,
    ensures
        (bit_at(i) & bit_at(j) != 0) == (i == j),
{
    lemma_bit_at_is_shift(i);
    lemma_bit_at_is_shift(j);
    lemma_one_bit_masks(shift_at(i), shift_at(j));
}

proof fn lemma_kind_bit_at(i: int)
    requires
        0 <= i < 16,
    ensures
        kind_bit(kind_at(i)) == bit_at(i),
        !(kind_at(i) is Unknown),
{
}

/// The table position of a named kind.
pub open spec fn kind_index(k: EventKind) -> int {
    match k {
        EventKind::Access => 0,
        EventKind::Attrib => 1,
        EventKind::CloseNoWrite => 2,
        EventKind::CloseWrite => 3,
        EventKind::Create => 4,
        EventKind::Delete => 5,
        EventKind::DeleteSelf => 6,
        EventKind::Modify => 7,
        EventKind::MoveSelf => 8,
        EventKind::MovedFrom => 9,
        EventKind::MovedTo => 10,
        EventKind::Open => 11,
        EventKind::Ignored => 12,
        EventKind::IsDir => 13,
        EventKind::QueueOverflow => 14,
        EventKind::Unmount => 15,
        EventKind::Unknown(_) => -1,
    }
}

proof fn lemma_kind_index(k: EventKind)
    requires
        !(k is Unknown),
    ensures
        0 <= kind_index(k) < 16,
        kind_at(kind_index(k)) == k,
        known_kinds()[kind_index(k)] == k,
{
}

proof fn lemma_known_kinds_distinct()
    ensures
        known_kinds().no_duplicates(),
        forall|i: int| 0 <= i < 16 ==> !(#[trigger] known_kinds()[i] is Unknown),
{
    assert forall|i: int, j: int|
        0 <= i < known_kinds().len() && 0 <= j < known_kinds().len() && i != j implies known_kinds()[i]
        != known_kinds()[j] by {
        assert(kind_index(kind_at(i)) == i);
        assert(kind_index(kind_at(j)) == j);
    }
}

proof fn lemma_filter_keeps_distinct(s: Seq<EventKind>, p: spec_fn(EventKind) -> bool)
    requires
        s.no_duplicates(),
    ensures
        s.filter(p).no_duplicates(),
    decreases s.len(),
{
    reveal(Seq::filter);
    if s.len() > 0 {
        let rest = s.drop_last();
        assert(rest.no_duplicates());
        lemma_filter_keeps_distinct(rest, p);
        if p(s.last()) {
            let f = rest.filter(p);
            if f.contains(s.last()) {
                rest.lemma_filter_contains_rev(p, s.last());
                let j = choose|j: int| 0 <= j < rest.len() && rest[j] == s.last();
                assert(s[j] == s[s.len() - 1]);
            }
            assert forall|i: int, j: int|
                0 <= i < f.push(s.last()).len() && 0 <= j < f.push(s.last()).len() && i != j implies f.push(
                s.last(),
            )[i] != f.push(s.last())[j] by {
                if i < f.len() && j < f.len() {
                } else if i < f.len() {
                    assert(f.contains(f[i]));
                } else {
                    assert(f.contains(f[j]));
                }
            }
        }
    }
}

/// Which kinds a mask names: a kind is among them exactly when it is a named kind (not
/// `Unknown`) whose flag the mask holds.
pub proof fn lemma_event_kinds_membership(m: u32, k: EventKind)
    ensures
        event_kinds_of(m).contains(k) <==> (!(k is Unknown) && m & kind_bit(k) != 0),
{
    let f = event_kinds_of(m);
    if f.contains(k) {
        let j = choose|j: int| 0 <= j < f.len() && f[j] == k;
        known_kinds().lemma_filter_pred(holds_kind(m), j);
        known_kinds().lemma_filter_contains_rev(holds_kind(m), k);
        let i = choose|i: int| 0 <= i < known_kinds().len() && known_kinds()[i] == k;
        assert(known_kinds()[i] == kind_at(i));
    }
    if !(k is Unknown) && m & kind_bit(k) != 0 {
        lemma_kind_index(k);
        known_kinds().lemma_filter_contains(holds_kind(m), kind_index(k));
    }
}

/// The kinds a mask names never repeat, never include `Unknown`, and number at most the
/// sixteen named kinds.
pub proof fn lemma_event_kinds_shape(m: u32)
    ensures
        event_kinds_of(m).no_duplicates(),
        event_kinds_of(m).len() <= 16,
        forall|i: int| 0 <= i < event_kinds_of(m).len() ==> !(#[trigger] event_kinds_of(m)[i] is Unknown),
{
    lemma_known_kinds_distinct();
    lemma_filter_keeps_distinct(known_kinds(), holds_kind(m));
    known_kinds().lemma_filter_len(holds_kind(m));
    assert forall|i: int| 0 <= i < event_kinds_of(m).len() implies !(#[trigger] event_kinds_of(m)[i] is Unknown) by {
        assert(event_kinds_of(m).contains(event_kinds_of(m)[i]));
        lemma_event_kinds_membership(m, event_kinds_of(m)[i]);
    }
}

proof fn lemma_or_intersects(a: u32, b: u32, c: u32)
    by (bit_vector)
    ensures
        ((a | b) & c != 0) == (a & c != 0 || b & c != 0),
{
}

proof fn lemma_zero_intersects(c: u32)
    by (bit_vector)
    ensures
        0u32 & c == 0,
{
}

/// The kinds named by the union of two masks are those named by either of them.
pub proof fn lemma_event_kinds_union(a: u32, b: u32, k: EventKind)
    ensures
        event_kinds_of(a | b).contains(k) <==> (event_kinds_of(a).contains(k) || event_kinds_of(
            b,
        ).contains(k)),
{
    lemma_event_kinds_membership(a | b, k);
    lemma_event_kinds_membership(a, k);
    lemma_event_kinds_membership(b, k);
    lemma_or_intersects(a, b, kind_bit(k));
}

/// The empty mask names no kind.
pub proof fn lemma_event_kinds_empty()
    ensures
        event_kinds_of(0) == Seq::<EventKind>::empty(),
{
    let f = event_kinds_of(0);
    if f.len() > 0 {
        assert(f.contains(f[0]));
        lemma_event_kinds_membership(0, f[0]);
        lemma_zero_intersects(kind_bit(f[0]));
    }
    assert(f =~= Seq::<EventKind>::empty());
}

/// A mask holding the single flag at table position `i` names exactly the kind at `i`.
pub proof fn lemma_event_kinds_single_flag(i: int)
    requires
        0 <= i < 16,
    ensures
        event_kinds_of(bit_at(i)) == seq![kind_at(i)],
{
    let m = bit_at(i);
    let f = event_kinds_of(m);
    lemma_event_kinds_shape(m);
    lemma_kind_bit_at(i);
    lemma_table_bits_disjoint(i, i);
    lemma_event_kinds_membership(m, kind_at(i));
    assert forall|p: int| 0 <= p < f.len() implies f[p] == kind_at(i) by {
        assert(f.contains(f[p]));
        lemma_event_kinds_membership(m, f[p]);
        lemma_kind_index(f[p]);
        lemma_table_bits_disjoint(i, kind_index(f[p]));
    }
    let q = choose|q: int| 0 <= q < f.len() && f[q] == kind_at(i);
    if f.len() > 1 {
        let other = if q == 0 { 1int } else { 0int };
        assert(f[other] == f[q]);
    }
    assert(f =~= seq![kind_at(i)]);
}

/// How many of the flags at table positions `0..n` mask bits `m` hold.
pub open spec fn flags_held(m: u32, n: int) -> nat
    decreases n,
{
    if n <= 0 {
        0
    } else {
        flags_held(m, n - 1) + if hits(m, n - 1) {
            1nat
        } else {
            0nat
        }
    }
}

proof fn lemma_prefix_count(m: u32, n: int)
    requires
        0 <= n <= 16,
    ensures
        known_kinds().take(n).filter(holds_kind(m)).len() == flags_held(m, n),
    decreases n,
{
    reveal(Seq::filter);
    if n > 0 {
        lemma_prefix_count(m, n - 1);
        lemma_kind_bit_at(n - 1);
        assert(known_kinds().take(n).drop_last() =~= known_kinds().take(n - 1));
        assert(known_kinds().take(n).last() == kind_at(n - 1));
    } else {
        assert(known_kinds().take(n) =~= Seq::<EventKind>::empty());
    }
}

/// A mask names one kind for each of the sixteen table flags it holds.
pub proof fn lemma_event_kinds_count(m: u32)
    ensures
        event_kinds_of(m).len() == flags_held(m, 16),
        flags_held(m, 16) <= 16,
{
    lemma_prefix_count(m, 16);
    assert(known_kinds().take(16) =~= known_kinds());
    lemma_event_kinds_shape(m);
}

proof fn lemma_filter_narrower(
    s: Seq<EventKind>,
    p: spec_fn(EventKind) -> bool,
    q: spec_fn(EventKind) -> bool,
)
    requires
        forall|k: EventKind| #[trigger] p(k) ==> q(k),
    ensures
        s.filter(p) == s.filter(q).filter(p),
    decreases s.len(),
{
    reveal(Seq::filter);
    if s.len() > 0 {
        lemma_filter_narrower(s.drop_last(), p, q);
        let fq = s.drop_last().filter(q);
        if q(s.last()) {
            assert(fq.push(s.last()).drop_last() =~= fq);
            assert(fq.push(s.last()).last() == s.last());
        }
    }
}

proof fn lemma_submask_intersects(a: u32, b: u32, c: u32)
    by (bit_vector)
    requires
        a & b == a,
        a & c != 0,
    ensures
        b & c != 0,
{
}

/// When every flag of mask `a` is also in mask `b`, the kinds `a` names are those that `b`
/// names with some dropped: the same kinds in the same relative order, so no more of them.
pub proof fn lemma_event_kinds_submask(a: u32, b: u32)
    requires
        a & b == a,
    ensures
        event_kinds_of(a) == event_kinds_of(b).filter(holds_kind(a)),
        event_kinds_of(a).len() <= event_kinds_of(b).len(),
{
    assert forall|k: EventKind| #[trigger] holds_kind(a)(k) implies holds_kind(b)(k) by {
        lemma_submask_intersects(a, b, kind_bit(k));
    }
    lemma_filter_narrower(known_kinds(), holds_kind(a), holds_kind(b));
    event_kinds_of(b).lemma_filter_len(holds_kind(a));
}

/// The kind of mask bits `m`, looking at the table from position `i` on: the kind of the
/// first flag from there that `m` holds, `Unknown` when it holds none of them.
pub open spec fn first_kind_from(m: u32, i: int) -> EventKind
    decreases 16 - i,
{
    if i < 0 || i >= 16 {
        EventKind::Unknown(EventMask { bits: m })
    } else if m & bit_at(i) != 0 {
        kind_at(i)
    } else {
        first_kind_from(m, i + 1)
    }
}

/// The kind of mask bits `m`: the kind of the first table flag that `m` holds.
pub open spec fn kind_of_mask(m: u32) -> EventKind {
    first_kind_from(m, 0)
}

proof fn lemma_first_kind_from(m: u32, k: int, i: int)
    requires
        0 <= k <= i < 16,
        m & bit_at(i) != 0,
        forall|j: int| k <= j < i ==> m & #[trigger] bit_at(j) == 0,
    ensures
        first_kind_from(m, k) == kind_at(i),
    decreases i - k,
{
    if k < i {
        assert(m & bit_at(k) == 0);
        lemma_first_kind_from(m, k + 1, i);
    }
}

proof fn lemma_first_kind_from_none(m: u32, k: int)
    requires
        0 <= k <= 16,
        forall|j: int| k <= j < 16 ==> m & #[trigger] bit_at(j) == 0,
    ensures
        first_kind_from(m, k) == EventKind::Unknown(EventMask { bits: m }),
    decreases 16 - k,
{
    if k < 16 {
        assert(m & bit_at(k) == 0);
        lemma_first_kind_from_none(m, k + 1);
    }
}

/// The first table flag held decides: when mask bits `m` hold the flag at table position `i`
/// and none of the flags at earlier positions, the kind of `m` is the kind at `i` (so
/// `CREATE | ISDIR` is `Create`, as `CREATE` comes first).
pub proof fn lemma_first_flag_wins(m: u32, i: int)
    requires
        0 <= i < 16,
        m & bit_at(i) != 0,
        forall|j: int| 0 <= j < i ==> m & #[trigger] bit_at(j) == 0,
    ensures
        kind_of_mask(m) == kind_at(i),
{
    lemma_first_kind_from(m, 0, i);
}

/// A mask that holds none of the table flags is of unknown kind, carrying the mask itself.
pub proof fn lemma_no_flag_unknown(m: u32)
    requires
        forall|j: int| 0 <= j < 16 ==> m & #[trigger] bit_at(j) == 0,
    ensures
        kind_of_mask(m) == EventKind::Unknown(EventMask { bits: m }),
{
    lemma_first_kind_from_none(m, 0);
}

/// A mask holding one table flag alone is of the kind of that flag.
pub proof fn lemma_single_flag_kind(i: int)
    requires
        0 <= i < 16,
    ensures
        kind_of_mask(bit_at(i)) == kind_at(i),
{
    lemma_table_bits_disjoint(i, i);
    assert forall|j: int| 0 <= j < i implies bit_at(i) & #[trigger] bit_at(j) == 0 by {
        lemma_table_bits_disjoint(i, j);
    }
    lemma_first_flag_wins(bit_at(i), i);
}

proof fn lemma_prefix_ordered(m: u32, n: int)
    requires
        0 <= n <= 16,
    ensures
        forall|p: int|
            0 <= p < known_kinds().take(n).filter(holds_kind(m)).len() ==> 0 <= kind_index(
                #[trigger] known_kinds().take(n).filter(holds_kind(m))[p],
            ) < n,
        forall|p: int, q: int|
            0 <= p < q < known_kinds().take(n).filter(holds_kind(m)).len() ==> kind_index(
                #[trigger] known_kinds().take(n).filter(holds_kind(m))[p],
            ) < kind_index(#[trigger] known_kinds().take(n).filter(holds_kind(m))[q]),
    decreases n,
{
    reveal(Seq::filter);
    if n > 0 {
        lemma_prefix_ordered(m, n - 1);
        let t = known_kinds().take(n);
        assert(t.drop_last() =~= known_kinds().take(n - 1));
        assert(t.last() == kind_at(n - 1));
        assert(kind_index(kind_at(n - 1)) == n - 1);
        let prev = known_kinds().take(n - 1).filter(holds_kind(m));
        let cur = t.filter(holds_kind(m));
        if holds_kind(m)(kind_at(n - 1)) {
            assert(cur == prev.push(kind_at(n - 1)));
            assert forall|p: int| 0 <= p < cur.len() implies 0 <= kind_index(#[trigger] cur[p]) < n by {
                if p < prev.len() {
                    assert(cur[p] == prev[p]);
                }
            }
            assert forall|p: int, q: int| 0 <= p < q < cur.len() implies kind_index(
                #[trigger] cur[p],
            ) < kind_index(#[trigger] cur[q]) by {
                assert(cur[p] == prev[p]);
                if q < prev.len() {
                    assert(cur[q] == prev[q]);
                }
            }
        } else {
            assert(cur == prev);
        }
    } else {
        assert(known_kinds().take(n) =~= Seq::<EventKind>::empty());
    }
}

/// The kinds a mask names come in table order: of two kinds in the list, the earlier one's
/// flag comes earlier in the table.
pub proof fn lemma_event_kinds_ordered(m: u32)
    ensures
        forall|p: int, q: int|
            0 <= p < q < event_kinds_of(m).len() ==> kind_index(#[trigger] event_kinds_of(m)[p])
                < kind_index(#[trigger] event_kinds_of(m)[q]),
{
    lemma_prefix_ordered(m, 16);
    assert(known_kinds().take(16) =~= known_kinds());
}

/// The flags of `inotify::EventMask::{ACCESS, ATTRIB, CLOSE_NOWRITE, CLOSE_WRITE, CREATE,
/// DELETE, DELETE_SELF, MODIFY, MOVE_SELF, MOVED_FROM, MOVED_TO, OPEN, IGNORED, ISDIR,
/// Q_OVERFLOW, UNMOUNT}`, in that order, read with `bits()`. The contract claims the value of
/// each constant, which `inotify-sys` defines as the kernel's `IN_*` flag.
#[verifier::external_body]
fn event_mask_kinds() -> (r: [u32; 16])
    ensures
        forall|i: int| 0 <= i < 16 ==> r@[i] == bit_at(i),
{
    [
        InotifyMask::ACCESS.bits(), InotifyMask::ATTRIB.bits(), InotifyMask::CLOSE_NOWRITE.bits(),
        InotifyMask::CLOSE_WRITE.bits(), InotifyMask::CREATE.bits(), InotifyMask::DELETE.bits(),
        InotifyMask::DELETE_SELF.bits(), InotifyMask::MODIFY.bits(), InotifyMask::MOVE_SELF.bits(),
        InotifyMask::MOVED_FROM.bits(), InotifyMask::MOVED_TO.bits(), InotifyMask::OPEN.bits(),
        InotifyMask::IGNORED.bits(), InotifyMask::ISDIR.bits(), InotifyMask::Q_OVERFLOW.bits(),
        InotifyMask::UNMOUNT.bits(),
    ]
}

impl EventKind {
    /// The kind of the first flag of the table that `mask` holds, `Unknown(mask)` if it holds
    /// none of them.
    pub fn from_mask_bit(mask: &EventMask) -> (r: EventKind)
        ensures
            forall|i: int| #[trigger] first_hit(mask.bits, i) ==> r == kind_at(i),
            (forall|i: int| 0 <= i < 16 ==> !#[trigger] hits(mask.bits, i)) ==> r
                == EventKind::Unknown(*mask),
            forall|i: int| 0 <= i < 16 && mask.bits == bit_at(i) ==> r == kind_at(i),
            forall|i: int|
                0 <= i < 16 && mask.bits & #[trigger] bit_at(i) != 0 && (forall|j: int|
                    0 <= j < i ==> mask.bits & #[trigger] bit_at(j) == 0) ==> r == kind_at(i),
            r == kind_of_mask(mask.bits),
    {
        let t = event_mask_kinds();
        let r = if mask.intersects(&EventMask::from_bits_retain(t[0])) {
            EventKind::Access
        } else if mask.intersects(&EventMask::from_bits_retain(t[1])) {
            EventKind::Attrib
        } else if mask.intersects(&EventMask::from_bits_retain(t[2])) {
            EventKind::CloseNoWrite
        } else if mask.intersects(&EventMask::from_bits_retain(t[3])) {
            EventKind::CloseWrite
        } else if mask.intersects(&EventMask::from_bits_retain(t[4])) {
            EventKind::Create
        } else if mask.intersects(&EventMask::from_bits_retain(t[5])) {
            EventKind::Delete
        } else if mask.intersects(&EventMask::from_bits_retain(t[6])) {
            EventKind::DeleteSelf
        } else if mask.intersects(&EventMask::from_bits_retain(t[7])) {
            EventKind::Modify
        } else if mask.intersects(&EventMask::from_bits_retain(t[8])) {
            EventKind::MoveSelf
        } else if mask.intersects(&EventMask::from_bits_retain(t[9])) {
            EventKind::MovedFrom
        } else if mask.intersects(&EventMask::from_bits_retain(t[10])) {
            EventKind::MovedTo
        } else if mask.intersects(&EventMask::from_bits_retain(t[11])) {
            EventKind::Open
        } else if mask.intersects(&EventMask::from_bits_retain(t[12])) {
            EventKind::Ignored
        } else if mask.intersects(&EventMask::from_bits_retain(t[13])) {
            EventKind::IsDir
        } else if mask.intersects(&EventMask::from_bits_retain(t[14])) {
            EventKind::QueueOverflow
        } else if mask.intersects(&EventMask::from_bits_retain(t[15])) {
            EventKind::Unmount
        } else {
            EventKind::Unknown(*mask)
        };
        proof {
            let m = mask.bits;
            assert(hits(m, 0) == (m & t@[0] != 0));
            assert(hits(m, 1) == (m & t@[1] != 0));
            assert(hits(m, 2) == (m & t@[2] != 0));
            assert(hits(m, 3) == (m & t@[3] != 0));
            assert(hits(m, 4) == (m & t@[4] != 0));
            assert(hits(m, 5) == (m & t@[5] != 0));
            assert(hits(m, 6) == (m & t@[6] != 0));
            assert(hits(m, 7) == (m & t@[7] != 0));
            assert(hits(m, 8) == (m & t@[8] != 0));
            assert(hits(m, 9) == (m & t@[9] != 0));
            assert(hits(m, 10) == (m & t@[10] != 0));
            assert(hits(m, 11) == (m & t@[11] != 0));
            assert(hits(m, 12) == (m & t@[12] != 0));
            assert(hits(m, 13) == (m & t@[13] != 0));
            assert(hits(m, 14) == (m & t@[14] != 0));
            assert(hits(m, 15) == (m & t@[15] != 0));
            assert forall|i: int| #[trigger] first_hit(m, i) implies r == kind_at(i) by {
                assert(hits(m, i));
            }
            assert forall|i: int| 0 <= i < 16 && m == bit_at(i) implies r == kind_at(i) by {
                lemma_table_bits_disjoint(i, i);
                assert forall|j: int| 0 <= j < i implies !#[trigger] hits(m, j) by {
                    lemma_table_bits_disjoint(i, j);
                    lemma_table_bits_disjoint(j, i);
                }
                assert(first_hit(m, i));
            }
            assert forall|i: int|
                0 <= i < 16 && m & #[trigger] bit_at(i) != 0 && (forall|j: int|
                    0 <= j < i ==> m & #[trigger] bit_at(j) == 0) implies r == kind_at(i) by {
                assert(hits(m, i));
                assert forall|j: int| 0 <= j < i implies !#[trigger] hits(m, j) by {
                    assert(m & bit_at(j) == 0);
                }
                assert(first_hit(m, i));
            }
            if hits(m, 0) {
                lemma_first_flag_wins(m, 0);
            } else if hits(m, 1) {
                lemma_first_flag_wins(m, 1);
            } else if hits(m, 2) {
                lemma_first_flag_wins(m, 2);
            } else if hits(m, 3) {
                lemma_first_flag_wins(m, 3);
            } else if hits(m, 4) {
                lemma_first_flag_wins(m, 4);
            } else if hits(m, 5) {
                lemma_first_flag_wins(m, 5);
            } else if hits(m, 6) {
                lemma_first_flag_wins(m, 6);
            } else if hits(m, 7) {
                lemma_first_flag_wins(m, 7);
            } else if hits(m, 8) {
                lemma_first_flag_wins(m, 8);
            } else if hits(m, 9) {
                lemma_first_flag_wins(m, 9);
            } else if hits(m, 10) {
                lemma_first_flag_wins(m, 10);
            } else if hits(m, 11) {
                lemma_first_flag_wins(m, 11);
            } else if hits(m, 12) {
                lemma_first_flag_wins(m, 12);
            } else if hits(m, 13) {
                lemma_first_flag_wins(m, 13);
            } else if hits(m, 14) {
                lemma_first_flag_wins(m, 14);
            } else if hits(m, 15) {
                lemma_first_flag_wins(m, 15);
            } else {
                lemma_no_flag_unknown(m);
            }
        }
        r
    }

    /// The kinds that `mask` names: for each flag of the kind table, in table order, the kind
    /// of that flag when `mask` holds it.
    pub fn to_vec(mask: &EventMask) -> (r: Vec<EventKind>)
        ensures
            r@ == event_kinds_of(mask.bits),
    {
        let t = event_mask_kinds();
        let mut r: Vec<EventKind> = Vec::new();
        let mut i: usize = 0;
        while i < KNOWN_KIND_COUNT
            invariant
                i <= 16,
                forall|j: int| 0 <= j < 16 ==> t@[j] == bit_at(j),
                r@ == known_kinds().take(i as int).filter(holds_kind(mask.bits)),
            decreases 16 - i,
        {
            let m = EventMask::from_bits_retain(t[i]);
            proof {
                lemma_kind_bit_at(i as int);
                reveal(Seq::filter);
                assert(known_kinds().take(i + 1).drop_last() =~= known_kinds().take(i as int));
                assert(known_kinds().take(i + 1).last() == kind_at(i as int));
            }
            if mask.intersects(&m) {
                let k = EventKind::from_mask_bit(&m);
                r.push(k);
            }
            i = i + 1;
        }
        proof {
            assert(known_kinds().take(16) =~= known_kinds());
        }
        r
    }
    /// The name of this kind (the name of its variant).
    pub fn name(&self) -> (r: &'static str)
        ensures
            r@ == kind_name(*self),
    {
        match self {
            EventKind::Access => "Access",
            EventKind::Attrib => "Attrib",
            EventKind::CloseWrite => "CloseWrite",
            EventKind::CloseNoWrite => "CloseNoWrite",
            EventKind::Create => "Create",
            EventKind::Delete => "Delete",
            EventKind::DeleteSelf => "DeleteSelf",
            EventKind::Modify => "Modify",
            EventKind::MoveSelf => "MoveSelf",
            EventKind::MovedFrom => "MovedFrom",
            EventKind::MovedTo => "MovedTo",
            EventKind::Open => "Open",
            EventKind::Ignored => "Ignored",
            EventKind::IsDir => "IsDir",
            EventKind::QueueOverflow => "QueueOverflow",
            EventKind::Unmount => "Unmount",
            EventKind::Unknown(_) => "Unknown",
        }
    }
}

/// The flags of an event as reported: the names of the kinds that `mask` names, in table
/// order, separated by commas.
pub fn flags_string(mask: &EventMask) -> (r: String)
    ensures
        r@ == joined_names(event_kinds_of(mask.bits)),
        event_kinds_of(mask.bits).len() == 0 ==> r@.len() == 0,
        event_kinds_of(mask.bits).len() == 1 ==> r@ == kind_name(event_kinds_of(mask.bits)[0]),
{
    let kinds = EventKind::to_vec(mask);
    let mut s = String::new();
    let comma = ",";
    proof {
        reveal_strlit(",");
        assert(comma@ =~= seq![',']);
    }
    let mut i: usize = 0;
    while i < kinds.len()
        invariant
            i <= kinds@.len(),
            comma@ == seq![','],
            s@ == joined_names(kinds@.take(i as int)),
        decreases kinds@.len() - i,
    {
        proof {
            assert(kinds@.take(i + 1).drop_last() =~= kinds@.take(i as int));
            assert(kinds@.take(i + 1).last() == kinds@[i as int]);
        }
        if i > 0 {
            s.append(comma);
        }
        s.append(kinds[i].name());
        proof {
            if i == 0 {
                assert(s@ =~= joined_names(kinds@.take(1)));
            } else {
                assert(s@ =~= joined_names(kinds@.take(i + 1)));
            }
        }
        i = i + 1;
    }
    proof {
        assert(kinds@.take(kinds@.len() as int) =~= kinds@);
        if kinds@.len() == 1 {
            assert(kinds@ =~= seq![kinds@[0]]);
        }
    }
    s
}

/// The cookie of an event as reported: upper-case hexadecimal, or `(none)` when it is zero.
pub fn cookie_string(cookie: u32) -> (r: String)
    ensures
        r@ == cookie_text(cookie),
        cookie > 0 ==> numeral_value(r@, 16) == cookie && r@.len() >= 1 && r@[0] != '0',
        cookie > 0 ==> forall|j: int| 0 <= j < r@.len() ==> is_upper_hex_char(#[trigger] r@[j]),
        cookie == 0 ==> r@ == "(none)"@,
{
    proof {
        lemma_cookie_text(cookie);
    }
    if cookie > 0 {
        let mut s = String::new();
        push_digits(&mut s, cookie as u64, 16);
        proof {
            assert(s@ =~= digits(cookie as nat, 16));
        }
        s
    } else {
        String::from_str("(none)")
    }
}


/// The path of an event as reported: the path of the file it names, or `(none)` when it names
/// no file.
pub fn path_string(path: Option<String>) -> (r: String)
    ensures
        r@ == match path {
            Some(p) => p@,
            None => "(none)"@,
        },
{
    match path {
        Some(p) => p,
        None => String::from_str("(none)"),
    }
}

} // verus!
