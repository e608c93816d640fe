//! The lights that a run drives, and the text they are configured with.
//!
//! A list of lights is written as identifiers separated by commas. Each
//! identifier is an unsigned decimal number, with an optional plus sign in
//! front. Only the first `MAX_TARGETS` entries count: what follows them is
//! dropped without being looked at.

use vstd::prelude::*;
use vstd::string::StringSliceAdditionalSpecFns;

verus! {

/// Largest number of lights that one run drives.
pub const MAX_TARGETS: usize = 100;

/// The byte that separates two entries of a list: a comma.
pub const SEPARATOR: u8 = 0x2c;

/// The sign that may stand in front of an identifier: a plus.
pub const PLUS_SIGN: u8 = 0x2b;

/// The digit zero.
pub const DIGIT_ZERO: u8 = 0x30;

/// The digit nine.
pub const DIGIT_NINE: u8 = 0x39;

/// Length of the longest prefix of `text` that holds no separator.
pub open spec fn first_entry_len(text: Seq<u8>) -> nat
    decreases text.len(),
{
    if text.len() == 0 || text[0] == SEPARATOR {
        0
    } else {
        1 + first_entry_len(text.drop_first())
    }
}

/// The entries of a list: the stretches of `text` between separators, in
/// order. A text without separator is one entry, the empty text too.
pub open spec fn entries(text: Seq<u8>) -> Seq<Seq<u8>>
    decreases text.len(),
{
    let n = first_entry_len(text) as int;
    if n >= text.len() {
        seq![text]
    } else {
        seq![text.take(n)] + entries(text.skip(n + 1))
    }
}

/// Whether a byte is a decimal digit.
pub open spec fn is_digit(byte: u8) -> bool {
    DIGIT_ZERO <= byte <= DIGIT_NINE
}

/// Whether every byte of `text` is a decimal digit.
pub open spec fn all_digits(text: Seq<u8>) -> bool {
    forall|i: int| 0 <= i < text.len() ==> is_digit(#[trigger] text[i])
}

/// The number that a string of decimal digits denotes.
pub open spec fn decimal_value(digits: Seq<u8>) -> nat
    decreases digits.len(),
{
    if digits.len() == 0 {
        0
    } else {
        decimal_value(digits.drop_last()) * 10 + (if is_digit(digits.last()) {
            (digits.last() - DIGIT_ZERO) as nat
        } else {
            0
        })
    }
}

/// The digits of an entry: the entry without its plus sign, if it has one.
pub open spec fn digits_of(entry: Seq<u8>) -> Seq<u8> {
    if entry.len() > 0 && entry[0] == PLUS_SIGN {
        entry.drop_first()
    } else {
        entry
    }
}

/// Whether an entry is an identifier: an optional plus sign, then at least one
/// decimal digit and nothing else, denoting a number that fits the machine
/// word.
pub open spec fn is_identifier(entry: Seq<u8>) -> bool {
    let digits = digits_of(entry);
    &&& digits.len() > 0
    &&& all_digits(digits)
    &&& decimal_value(digits) <= usize::MAX
}

/// The number that an identifier denotes.
pub open spec fn identifier_value(entry: Seq<u8>) -> nat {
    decimal_value(digits_of(entry))
}

/// The entries of a list that count: the first `MAX_TARGETS` of them.
pub open spec fn counted_entries(text: Seq<u8>) -> Seq<Seq<u8>> {
    let all = entries(text);
    if all.len() > MAX_TARGETS {
        all.take(MAX_TARGETS as int)
    } else {
        all
    }
}

/// Whether `position` is that of the first counted entry of `text` that is no
/// identifier.
pub open spec fn is_first_malformed(text: Seq<u8>, position: int) -> bool {
    let counted = counted_entries(text);
    &&& 0 <= position < counted.len()
    &&& !is_identifier(counted[position])
    &&& forall|j: int| 0 <= j < position ==> is_identifier(#[trigger] counted[j])
}

/// Whether each entry of `text` that counts is an identifier.
pub open spec fn is_target_list(text: Seq<u8>) -> bool {
    forall|i: int|
        0 <= i < counted_entries(text).len() ==> is_identifier(#[trigger] counted_entries(text)[i])
}

/// The identifiers that a list names, in the order of the list.
pub open spec fn listed_targets(text: Seq<u8>) -> Seq<usize> {
    counted_entries(text).map_values(|entry: Seq<u8>| identifier_value(entry) as usize)
}

/// A prefix without separator that ends at a separator, or at the end of the
/// text, is the first entry.
pub proof fn lemma_first_entry_len(text: Seq<u8>, n: int)
    requires
        0 <= n <= text.len(),
        forall|i: int| 0 <= i < n ==> text[i] != SEPARATOR,
        n == text.len() || text[n] == SEPARATOR,
    ensures
        first_entry_len(text) == n,
    decreases n,
{
    if n > 0 {
        let rest = text.drop_first();
        assert forall|i: int| 0 <= i < n - 1 implies rest[i] != SEPARATOR by {
            assert(rest[i] == text[i + 1]);
        }
        lemma_first_entry_len(rest, n - 1);
    }
}

/// Index at which the entry that begins at `start` ends: that of the next
/// separator, or the length of the text.
fn entry_end(text: &[u8], start: usize) -> (end: usize)
    requires
        start <= text.len(),
    ensures
        start <= end <= text.len(),
        end - start == first_entry_len(text@.skip(start as int)),
{
    let mut end: usize = start;
    while end < text.len() && text[end] != SEPARATOR
        invariant
            start <= end <= text.len(),
            forall|i: int| start <= i < end ==> text@[i] != SEPARATOR,
        decreases text.len() - end,
    {
        end += 1;
    }
    proof {
        lemma_first_entry_len(text@.skip(start as int), end - start);
    }
    end
}

/// The first entry ends before the first separator: it holds none, and a
/// separator follows it unless the text ends with it.
pub proof fn lemma_first_entry_ends_at_separator(text: Seq<u8>)
    ensures
        first_entry_len(text) <= text.len(),
        forall|i: int| 0 <= i < first_entry_len(text) ==> text[i] != SEPARATOR,
        first_entry_len(text) < text.len() ==> text[first_entry_len(text) as int] == SEPARATOR,
    decreases text.len(),
{
    if text.len() > 0 && text[0] != SEPARATOR {
        let rest = text.drop_first();
        lemma_first_entry_ends_at_separator(rest);
        assert forall|i: int| 0 <= i < first_entry_len(text) implies text[i] != SEPARATOR by {
            if i > 0 {
                assert(text[i] == rest[i - 1]);
            }
        }
        if first_entry_len(text) < text.len() {
            assert(text[first_entry_len(text) as int] == rest[first_entry_len(rest) as int]);
        }
    }
}

/// The given parts with a separator between each two of them.
pub open spec fn joined(parts: Seq<Seq<u8>>) -> Seq<u8>
    decreases parts.len(),
{
    if parts.len() == 0 {
        Seq::empty()
    } else if parts.len() == 1 {
        parts[0]
    } else {
        parts[0] + seq![SEPARATOR] + joined(parts.drop_first())
    }
}

/// The entries of a text are what the separators leave of it: no entry holds
/// a separator, and the entries joined by separators are the text again.
pub proof fn lemma_entries_rejoin(text: Seq<u8>)
    ensures
        entries(text).len() >= 1,
        joined(entries(text)) == text,
        forall|i: int, j: int|
            0 <= i < entries(text).len() && 0 <= j < entries(text)[i].len() ==> #[trigger] entries(
                text,
            )[i][j] != SEPARATOR,
    decreases text.len(),
{
    let n = first_entry_len(text) as int;
    lemma_first_entry_ends_at_separator(text);
    if n < text.len() {
        let head = text.take(n);
        let rest = text.skip(n + 1);
        lemma_entries_rejoin(rest);
        let all = entries(text);
        assert(all.drop_first() =~= entries(rest));
        assert(all[0] == head);
        assert(joined(all) =~= text);
        assert forall|i: int, j: int|
            0 <= i < all.len() && 0 <= j < all[i].len() implies #[trigger] all[i][j]
            != SEPARATOR by {
            if i > 0 {
                assert(all[i] == entries(rest)[i - 1]);
            }
        }
    }
}

/// A list with more entries than `MAX_TARGETS` names the lights of its first
/// `MAX_TARGETS` entries, in their order, whatever follows them.
pub proof fn lemma_list_is_capped(text: Seq<u8>)
    requires
        entries(text).len() > MAX_TARGETS,
    ensures
        listed_targets(text).len() == MAX_TARGETS,
        is_target_list(text) <==> forall|i: int|
            0 <= i < MAX_TARGETS ==> is_identifier(#[trigger] entries(text)[i]),
        forall|i: int|
            0 <= i < MAX_TARGETS ==> #[trigger] listed_targets(text)[i] == identifier_value(
                entries(text)[i],
            ) as usize,
{
    let counted = counted_entries(text);
    assert forall|i: int| 0 <= i < MAX_TARGETS implies #[trigger] counted[i] == entries(
        text,
    )[i] by {}
    if is_target_list(text) {
        assert forall|i: int| 0 <= i < MAX_TARGETS implies is_identifier(
            #[trigger] entries(text)[i],
        ) by {
            assert(is_identifier(counted[i]));
        }
    }
    if forall|i: int| 0 <= i < MAX_TARGETS ==> is_identifier(#[trigger] entries(text)[i]) {
        assert forall|i: int| 0 <= i < counted.len() implies is_identifier(
            #[trigger] counted_entries(text)[i],
        ) by {
            assert(is_identifier(entries(text)[i]));
        }
    }
}

/// A list with at most `MAX_TARGETS` entries names the lights of all of them.
pub proof fn lemma_short_list_is_kept(text: Seq<u8>)
    requires
        entries(text).len() <= MAX_TARGETS,
    ensures
        counted_entries(text) == entries(text),
        listed_targets(text).len() == entries(text).len(),
{
}

/// A number does not shrink when digits are appended to it.
pub proof fn lemma_decimal_value_grows(digits: Seq<u8>, n: int)
    requires
        0 <= n <= digits.len(),
    ensures
        decimal_value(digits.take(n)) <= decimal_value(digits),
    decreases digits.len() - n,
{
    if n == digits.len() {
        assert(digits.take(n) =~= digits);
    } else {
        let shorter = digits.drop_last();
        assert(shorter.take(n) =~= digits.take(n));
        lemma_decimal_value_grows(shorter, n);
    }
}

/// Reads the entry that fills `text` from `start` up to `end` as an
/// identifier.
fn parse_identifier(text: &[u8], start: usize, end: usize) -> (id: Option<usize>)
    requires
        start <= end <= text.len(),
    ensures
        match id {
            Some(value) => {
                &&& is_identifier(text@.subrange(start as int, end as int))
                &&& value == identifier_value(text@.subrange(start as int, end as int))
            },
            None => !is_identifier(text@.subrange(start as int, end as int)),
        },
{
    let ghost entry = text@.subrange(start as int, end as int);
    let mut at: usize = start;
    if at < end && text[at] == PLUS_SIGN {
        at += 1;
    }
    let first: usize = at;
    let ghost digits = text@.subrange(first as int, end as int);
    assert(digits =~= digits_of(entry));
    if at == end {
        return None;
    }
    let mut value: usize = 0;
    while at < end
        invariant
            start <= first <= at <= end <= text.len(),
            digits == text@.subrange(first as int, end as int),
            digits == digits_of(text@.subrange(start as int, end as int)),
            all_digits(text@.subrange(first as int, at as int)),
            value == decimal_value(text@.subrange(first as int, at as int)),
        decreases end - at,
    {
        let byte: u8 = text[at];
        if byte < DIGIT_ZERO || byte > DIGIT_NINE {
            assert(digits[at - first] == byte);
            return None;
        }
        let digit: usize = (byte - DIGIT_ZERO) as usize;
        let ghost read = text@.subrange(first as int, at as int + 1);
        proof {
            assert(read.drop_last() =~= text@.subrange(first as int, at as int));
            assert(read.last() == byte);
            assert(decimal_value(read) == value * 10 + digit);
            assert(digits.take(at + 1 - first) =~= read);
            lemma_decimal_value_grows(digits, at + 1 - first);
            assert forall|i: int| 0 <= i < read.len() implies is_digit(#[trigger] read[i]) by {
                if i < read.len() - 1 {
                    assert(read[i] == text@.subrange(first as int, at as int)[i]);
                }
            }
        }
        let scaled: usize = match value.checked_mul(10) {
            Some(scaled) => scaled,
            None => {
                return None;
            },
        };
        value = match scaled.checked_add(digit) {
            Some(grown) => grown,
            None => {
                return None;
            },
        };
        at += 1;
    }
    assert(text@.subrange(first as int, at as int) =~= digits);
    Some(value)
}

/// A list has at least one entry.
pub proof fn lemma_entries_nonempty(text: Seq<u8>)
    ensures
        entries(text).len() >= 1,
{
}

/// Why a configured list of lights was refused.
#[derive(Clone, Copy, Debug, PartialEq, Eq, Structural)]
pub enum ConfigError {
    /// The entry at `position`, counted from zero, is no identifier.
    MalformedIdentifier { position: usize },
}

/// Reads a list of lights. The result holds the identifiers of the entries
/// that count, in their order, if each of them is an identifier; otherwise
/// the error names the first entry that is none.
pub fn parse_light_ids(text: &[u8]) -> (result: Result<Vec<usize>, ConfigError>)
    ensures
        result is Ok <==> is_target_list(text@),
        match result {
            Ok(ids) => is_target_list(text@) && ids@ == listed_targets(text@),
            Err(ConfigError::MalformedIdentifier { position }) => is_first_malformed(
                text@,
                position as int,
            ),
        },
{
    let mut ids: Vec<usize> = Vec::new();
    let mut start: usize = 0;
    let ghost mut done: Seq<Seq<u8>> = Seq::empty();
    assert(text@.skip(0) =~= text@);
    loop
        invariant
            start <= text.len(),
            ids.len() == done.len(),
            done.len() <= MAX_TARGETS,
            entries(text@) == done + entries(text@.skip(start as int)),
            forall|i: int| 0 <= i < done.len() ==> is_identifier(#[trigger] done[i]),
            forall|i: int| 0 <= i < done.len() ==> ids@[i] == identifier_value(#[trigger] done[i]),
        decreases text.len() - start,
    {
        let ghost rest = text@.skip(start as int);
        proof {
            lemma_entries_nonempty(rest);
        }
        if ids.len() == MAX_TARGETS {
            proof {
                assert(counted_entries(text@) =~= done);
                assert(ids@ =~= listed_targets(text@));
            }
            return Ok(ids);
        }
        let end: usize = entry_end(text, start);
        let ghost entry = text@.subrange(start as int, end as int);
        proof {
            assert(rest.take(end - start) =~= entry);
            if end < text.len() {
                assert(rest.skip(end - start + 1) =~= text@.skip(end as int + 1));
                lemma_entries_nonempty(text@.skip(end as int + 1));
            } else {
                assert(rest =~= entry);
            }
            assert(entries(rest)[0] == entry);
            assert(entries(text@)[done.len() as int] == entry);
            assert(counted_entries(text@)[done.len() as int] == entry);
            assert forall|j: int| 0 <= j < done.len() implies #[trigger] counted_entries(text@)[j]
                == done[j] by {
                assert(entries(text@)[j] == done[j]);
            }
        }
        match parse_identifier(text, start, end) {
            Some(id) => {
                ids.push(id);
            },
            None => {
                return Err(ConfigError::MalformedIdentifier { position: ids.len() });
            },
        }
        proof {
            done = done.push(entry);
        }
        if end == text.len() {
            proof {
                assert(entries(text@) =~= done);
                assert(counted_entries(text@) =~= done);
                assert(ids@ =~= listed_targets(text@));
            }
            return Ok(ids);
        }
        proof {
            assert(entries(text@) =~= done + entries(text@.skip(end as int + 1)));
        }
        start = end + 1;
    }
}

/// The first `MAX_TARGETS` of a sequence of identifiers.
pub open spec fn capped(ids: Seq<usize>) -> Seq<usize> {
    if ids.len() > MAX_TARGETS {
        ids.take(MAX_TARGETS as int)
    } else {
        ids
    }
}

/// The lights of one run, in the order in which they are driven. A light may
/// occur more than once, and the set may be empty. It never holds more than
/// `MAX_TARGETS` lights.
#[derive(Debug)]
pub struct TargetSet {
    ids: Vec<usize>,
}

impl View for TargetSet {
    type V = Seq<usize>;

    closed spec fn view(&self) -> Seq<usize> {
        self.ids@
    }
}

impl Clone for TargetSet {
    fn clone(&self) -> (copy: TargetSet)
        ensures
            copy@ == self@,
    {
        proof {
            use_type_invariant(self);
        }
        TargetSet { ids: self.ids.clone() }
    }
}

impl TargetSet {
    /// A target set never holds more than `MAX_TARGETS` lights.
    #[verifier::type_invariant]
    pub open spec fn within_cap(self) -> bool {
        self@.len() <= MAX_TARGETS
    }

    /// Makes a target set of the first `MAX_TARGETS` of the given lights.
    /// What follows them is dropped.
    pub fn from_ids(ids: Vec<usize>) -> (targets: TargetSet)
        ensures
            targets@ == capped(ids@),
            targets@.len() <= MAX_TARGETS,
    {
        let mut ids = ids;
        ids.truncate(MAX_TARGETS);
        TargetSet { ids }
    }

    /// Reads a configured list of lights. See `parse_light_ids`.
    pub fn parse(list: &str) -> (result: Result<TargetSet, ConfigError>)
        ensures
            result is Ok <==> is_target_list(list.spec_bytes()),
            match result {
                Ok(targets) => {
                    &&& is_target_list(list.spec_bytes())
                    &&& targets@ == listed_targets(list.spec_bytes())
                    &&& targets@.len() <= MAX_TARGETS
                },
                Err(ConfigError::MalformedIdentifier { position }) => is_first_malformed(
                    list.spec_bytes(),
                    position as int,
                ),
            },
    {
        match parse_light_ids(list.as_bytes()) {
            Ok(ids) => Ok(TargetSet { ids }),
            Err(error) => Err(error),
        }
    }

    /// Number of lights in the set.
    pub fn len(&self) -> (n: usize)
        ensures
            n == self@.len(),
            n <= MAX_TARGETS,
    {
        proof {
            use_type_invariant(self);
        }
        self.ids.len()
    }

    /// Whether the set holds no light.
    pub fn is_empty(&self) -> (empty: bool)
        ensures
            empty == (self@.len() == 0),
    {
        self.ids.len() == 0
    }

    /// The light at `index`, if the set has one there.
    pub fn get(&self, index: usize) -> (id: Option<usize>)
        ensures
            id == (if index < self@.len() {
                Some(self@[index as int])
            } else {
                None
            }),
    {
        if index < self.ids.len() {
            Some(self.ids[index])
        } else {
            None
        }
    }

    /// The light at `index`.
    pub(crate) fn at(&self, index: usize) -> (id: usize)
        requires
            index < self@.len(),
        ensures
            id == self@[index as int],
    {
        self.ids[index]
    }

    /// The lights of the set, in order.
    pub fn ids(&self) -> (ids: &[usize])
        ensures
            ids@ == self@,
    {
        self.ids.as_slice()
    }
}

} // verus!
