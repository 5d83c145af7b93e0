//! Validation of requested names and time-to-live values.

use vstd::prelude::*;
use crate::text::{chars_of, ends_with, lemma_split_on_nonempty, split_chars, split_on};

verus! {

/// The longest a label of a name may be, in characters.
pub const MAX_LABEL_LEN: usize = 63;

/// The longest time-to-live that may be requested: 365 days, in minutes.
pub const MAX_TTL_MINUTES: usize = 525600;

/// Why a requested name or time-to-live was refused.
#[derive(Debug, Clone, Copy, PartialEq, Eq, Structural)]
pub enum ValidationError {
    /// The name ends in neither `.local` nor `.localhost`.
    InvalidSuffix,
    /// The label at this index (labels split on `.`) is empty.
    EmptyLabel(usize),
    /// Label index, character index within the label, and the offending character.
    InvalidLabelChar(usize, usize, char),
    /// The time-to-live is outside `1..=525600` minutes.
    TtlOutOfRange,
}

pub open spec fn local_suffix() -> Seq<char> {
    seq!['.', 'l', 'o', 'c', 'a', 'l']
}

pub open spec fn localhost_suffix() -> Seq<char> {
    seq!['.', 'l', 'o', 'c', 'a', 'l', 'h', 'o', 's', 't']
}

pub open spec fn allowed_suffix(s: Seq<char>) -> bool {
    ends_with(s, local_suffix()) || ends_with(s, localhost_suffix())
}

/// The labels of a name: its pieces between dots.
pub open spec fn labels(s: Seq<char>) -> Seq<Seq<char>> {
    split_on(s, '.')
}

pub open spec fn is_alphanumeric(c: char) -> bool {
    ('a' <= c && c <= 'z') || ('A' <= c && c <= 'Z') || ('0' <= c && c <= '9')
}

/// Whether character `c`, at `index` of a label of `len` characters, makes
/// the label invalid: the label is too long, a hyphen starts or ends it, or
/// the character is neither ASCII alphanumeric nor a hyphen.
pub open spec fn bad_char(index: int, c: char, len: int) -> bool {
    len > MAX_LABEL_LEN || (c == '-' && (index == 0 || index == len - 1)) || !(is_alphanumeric(c)
        || c == '-')
}

pub open spec fn label_clean(l: Seq<char>) -> bool {
    forall|m: int| 0 <= m < l.len() ==> !bad_char(m, #[trigger] l[m], l.len() as int)
}

pub open spec fn labels_nonempty(s: Seq<char>) -> bool {
    forall|k: int| 0 <= k < labels(s).len() ==> (#[trigger] labels(s)[k]).len() > 0
}

/// A name passes every rule.
pub open spec fn name_ok(s: Seq<char>) -> bool {
    &&& allowed_suffix(s)
    &&& labels_nonempty(s)
    &&& forall|k: int| 0 <= k < labels(s).len() ==> label_clean(#[trigger] labels(s)[k])
}

/// `e` is the first rule, in order, that name `s` breaks.
pub open spec fn name_failure(s: Seq<char>, e: ValidationError) -> bool {
    let ls = labels(s);
    match e {
        ValidationError::InvalidSuffix => !allowed_suffix(s),
        ValidationError::EmptyLabel(i) => {
            &&& allowed_suffix(s)
            &&& i < ls.len()
            &&& ls[i as int].len() == 0
            &&& forall|k: int| 0 <= k < i ==> (#[trigger] ls[k]).len() > 0
        },
        ValidationError::InvalidLabelChar(i, j, c) => {
            &&& allowed_suffix(s)
            &&& labels_nonempty(s)
            &&& i < ls.len()
            &&& j < ls[i as int].len()
            &&& ls[i as int][j as int] == c
            &&& bad_char(j as int, c, ls[i as int].len() as int)
            &&& forall|k: int| 0 <= k < i ==> label_clean(#[trigger] ls[k])
            &&& forall|m: int|
                0 <= m < j ==> !bad_char(m, #[trigger] ls[i as int][m], ls[i as int].len() as int)
        },
        ValidationError::TtlOutOfRange => false,
    }
}

pub open spec fn ttl_ok(minutes: int) -> bool {
    1 <= minutes <= MAX_TTL_MINUTES
}

/// Whether the character in `bits` = (index, character, label length) makes
/// its label invalid.
pub fn invalid_dns_name_char(bits: &(usize, char, usize)) -> (r: bool)
    ensures
        r == bad_char(bits.0 as int, bits.1, bits.2 as int),
{
    let (index, c, part_len) = *bits;
    if part_len > MAX_LABEL_LEN {
        return true;
    }
    if c == '-' && (index == 0 || (part_len > 0 && index == part_len - 1)) {
        return true;
    }
    let alnum = ('a' <= c && c <= 'z') || ('A' <= c && c <= 'Z') || ('0' <= c && c <= '9');
    !alnum && c != '-'
}

fn ends_with_chars(s: &Vec<char>, suffix: &Vec<char>) -> (r: bool)
    ensures
        r == ends_with(s@, suffix@),
{
    if suffix.len() > s.len() {
        return false;
    }
    let off = s.len() - suffix.len();
    let mut k: usize = off;
    while k < s.len()
        invariant
            off + suffix@.len() == s@.len(),
            off <= k <= s@.len(),
            forall|m: int| 0 <= m < k - off ==> s@[off + m] == suffix@[m],
        decreases s@.len() - k,
    {
        if s[k] != suffix[k - off] {
            assert(s@.subrange(off as int, s@.len() as int)[k - off] != suffix@[k - off]);
            return false;
        }
        k = k + 1;
    }
    assert(s@.subrange(off as int, s@.len() as int) =~= suffix@);
    true
}

/// Checks a name against the suffix policy and the label rules, in that
/// order; the first rule broken is reported.
pub fn validate_name(name: &str) -> (r: Result<(), ValidationError>)
    ensures
        r is Ok <==> name_ok(name@),
        r matches Err(e) ==> name_failure(name@, e),
{
    let s = chars_of(name);
    let local = vec!['.', 'l', 'o', 'c', 'a', 'l'];
    let localhost = vec!['.', 'l', 'o', 'c', 'a', 'l', 'h', 'o', 's', 't'];
    assert(local@ == local_suffix());
    assert(localhost@ == localhost_suffix());
    if !ends_with_chars(&s, &local) && !ends_with_chars(&s, &localhost) {
        return Err(ValidationError::InvalidSuffix);
    }
    let parts = split_chars(&s, '.');
    proof {
        lemma_split_on_nonempty(s@, '.');
    }
    let ghost ls = labels(name@);
    let mut i: usize = 0;
    while i < parts.len()
        invariant
            s@ == name@,
            ls == labels(name@),
            allowed_suffix(name@),
            parts@.len() == ls.len(),
            forall|k: int| 0 <= k < parts@.len() ==> (#[trigger] parts@[k])@ == ls[k],
            i <= parts@.len(),
            forall|k: int| 0 <= k < i ==> (#[trigger] ls[k]).len() > 0,
        decreases parts@.len() - i,
    {
        if parts[i].len() == 0 {
            assert(parts@[i as int]@ == ls[i as int]);
            assert(labels(name@)[i as int].len() == 0);
            assert(!labels_nonempty(name@));
            return Err(ValidationError::EmptyLabel(i));
        }
        assert(parts@[i as int]@ == ls[i as int]);
        i = i + 1;
    }
    let mut i: usize = 0;
    while i < parts.len()
        invariant
            s@ == name@,
            ls == labels(name@),
            allowed_suffix(name@),
            parts@.len() == ls.len(),
            forall|k: int| 0 <= k < parts@.len() ==> (#[trigger] parts@[k])@ == ls[k],
            labels_nonempty(name@),
            i <= parts@.len(),
            forall|k: int| 0 <= k < i ==> label_clean(#[trigger] ls[k]),
        decreases parts@.len() - i,
    {
        let part = &parts[i];
        let len = part.len();
        assert(part@ == ls[i as int]);
        let mut j: usize = 0;
        while j < len
            invariant
                ls == labels(name@),
                allowed_suffix(name@),
                labels_nonempty(name@),
                forall|k: int| 0 <= k < i ==> label_clean(#[trigger] ls[k]),
                i < ls.len(),
                part@ == ls[i as int],
                len == part@.len(),
                j <= len,
                forall|m: int| 0 <= m < j ==> !bad_char(m, #[trigger] part@[m], len as int),
            decreases len - j,
        {
            let c = part[j];
            if invalid_dns_name_char(&(j, c, len)) {
                assert(ls[i as int][j as int] == c);
                assert(!label_clean(ls[i as int]));
                return Err(ValidationError::InvalidLabelChar(i, j, c));
            }
            j = j + 1;
        }
        i = i + 1;
    }
    Ok(())
}

/// Checks that a time-to-live lies within `1..=525600` minutes.
pub fn validate_ttl(minutes: usize) -> (r: Result<(), ValidationError>)
    ensures
        r is Ok <==> ttl_ok(minutes as int),
        r is Err ==> r == Err::<(), ValidationError>(ValidationError::TtlOutOfRange),
{
    if minutes >= 1 && minutes <= MAX_TTL_MINUTES {
        Ok(())
    } else {
        Err(ValidationError::TtlOutOfRange)
    }
}

} // verus!
