//! Domain names of the name service.
//!
//! A name is a row of labels separated by dots, the top-level label last.
//! A label holds lower-case letters, digits and hyphens, and neither starts
//! nor ends with a hyphen. A domain keeps the labels of its name in reverse:
//! the top-level label first.

use vstd::prelude::*;
use vstd::array::array_as_slice;
use vstd::string::StringSliceAdditionalSpecFns;
use vstd::utf8::{encode_utf8, is_ascii_chars, is_ascii_chars_encode_utf8};
use crate::dynamic_field::{
    derive_dynamic_field_id, derived_field_id, primitive_kind, struct_encoding, PrimitiveType,
    TypeTag,
};
use crate::encoding::{length_prefixed, push_all, push_length_prefixed, push_uleb128, uleb128};
use crate::error::NameServiceError;
use crate::types::{zero_bytes, MgoAddress, ObjectID};

verus! {

/// Longest name, in bytes.
pub const MAX_DOMAIN_LENGTH: usize = 200;

/// Shortest label, in bytes.
pub const MIN_LABEL_LENGTH: usize = 1;

/// Longest label, in bytes.
pub const MAX_LABEL_LENGTH: usize = 63;

/// The byte that separates labels: a dot.
pub const SEPARATOR: u8 = 46;

/// The hyphen.
pub const HYPHEN: u8 = 45;

/// Whether the byte at `i` may stand there in a label: a lower-case letter
/// or a digit anywhere, a hyphen anywhere but at the two ends.
pub open spec fn valid_label_byte(label: Seq<u8>, i: int) -> bool {
    let b = label[i];
    (97 <= b <= 122) || (48 <= b <= 57) || (b == HYPHEN && i != 0 && i != label.len() - 1)
}

/// The fault of the first byte from `from` on that may not stand in the
/// label: a hyphen at an end, or any other byte.
pub open spec fn label_scan(label: Seq<u8>, from: int) -> Option<NameServiceError>
    decreases label.len() - from,
{
    if from < 0 || from >= label.len() {
        None
    } else if valid_label_byte(label, from) {
        label_scan(label, from + 1)
    } else if label[from] == HYPHEN {
        Some(NameServiceError::InvalidHyphens)
    } else {
        Some(NameServiceError::InvalidUnderscore)
    }
}

/// Why `label` is no label; none where it is one. The length is judged
/// before the bytes.
pub open spec fn label_error(label: Seq<u8>) -> Option<NameServiceError> {
    if label.len() < MIN_LABEL_LENGTH || label.len() > MAX_LABEL_LENGTH {
        Some(
            NameServiceError::InvalidLength(
                label.len() as usize,
                MIN_LABEL_LENGTH,
                MAX_LABEL_LENGTH,
            ),
        )
    } else {
        label_scan(label, 0)
    }
}

/// Position of the last dot in `bytes`; -1 where there is none.
pub open spec fn last_dot(bytes: Seq<u8>) -> int
    decreases bytes.len(),
{
    if bytes.len() == 0 {
        -1
    } else if bytes.last() == SEPARATOR {
        bytes.len() - 1
    } else {
        last_dot(bytes.drop_last())
    }
}

/// The labels of a name, the last one first.
pub open spec fn labels_of(bytes: Seq<u8>) -> Seq<Seq<u8>>
    decreases bytes.len(),
{
    let k = last_dot(bytes);
    if 0 <= k < bytes.len() {
        seq![bytes.subrange(k + 1, bytes.len() as int)] + labels_of(bytes.take(k))
    } else {
        seq![bytes]
    }
}

/// The fault of the first of `labels` that is no label.
pub open spec fn first_label_error(labels: Seq<Seq<u8>>) -> Option<NameServiceError>
    decreases labels.len(),
{
    if labels.len() == 0 {
        None
    } else {
        match label_error(labels.first()) {
            Some(e) => Some(e),
            None => first_label_error(labels.drop_first()),
        }
    }
}

/// Whether `labels` are those of a domain: at least two, each of them a
/// label.
pub open spec fn is_domain(labels: Seq<Seq<u8>>) -> bool {
    labels.len() >= 2 && forall|i: int| 0 <= i < labels.len() ==> label_error(#[trigger] labels[i]) is None
}

/// The labels of the domain that `bytes` name, the top-level label first, or
/// why they name none. A name that is too long is turned down as a whole;
/// else the labels are judged from the last to the first, and the fault of
/// the first that fails is reported; a name of one label is turned down last.
pub open spec fn parsed_domain(bytes: Seq<u8>) -> Result<Seq<Seq<u8>>, NameServiceError> {
    if bytes.len() > MAX_DOMAIN_LENGTH {
        Err(NameServiceError::ExceedsMaxLength(bytes.len() as usize, MAX_DOMAIN_LENGTH))
    } else {
        match first_label_error(labels_of(bytes)) {
            Some(e) => Err(e),
            None => if labels_of(bytes).len() < 2 {
                Err(NameServiceError::LabelsEmpty)
            } else {
                Ok(labels_of(bytes))
            },
        }
    }
}

/// The name that the labels spell: the labels from the last to the first,
/// with a dot between each two.
pub open spec fn joined(labels: Seq<Seq<u8>>) -> Seq<u8>
    decreases labels.len(),
{
    if labels.len() == 0 {
        Seq::empty()
    } else if labels.len() == 1 {
        labels.first()
    } else {
        joined(labels.drop_first()) + seq![SEPARATOR] + labels.first()
    }
}

/// The encodings of the byte strings, each behind its length, one after the
/// other.
pub open spec fn strings_encoding(items: Seq<Seq<u8>>) -> Seq<u8>
    decreases items.len(),
{
    if items.len() == 0 {
        Seq::empty()
    } else {
        strings_encoding(items.drop_last()) + length_prefixed(items.last())
    }
}

/// The canonical encoding of a domain: the count of its labels, then each
/// label behind its length, the top-level label first.
pub open spec fn domain_encoding(labels: Seq<Seq<u8>>) -> Seq<u8> {
    uleb128(labels.len()) + strings_encoding(labels)
}

/// The byte strings that the vectors hold.
pub open spec fn views_of(labels: Seq<Vec<u8>>) -> Seq<Seq<u8>> {
    Seq::new(labels.len(), |i: int| labels[i]@)
}

proof fn lemma_last_dot_found(bytes: Seq<u8>, k: int)
    requires
        0 <= k < bytes.len(),
        bytes[k] == SEPARATOR,
        forall|j: int| k < j < bytes.len() ==> bytes[j] != SEPARATOR,
    ensures
        last_dot(bytes) == k,
    decreases bytes.len(),
{
    if k != bytes.len() - 1 {
        lemma_last_dot_found(bytes.drop_last(), k);
    }
}

proof fn lemma_last_dot_absent(bytes: Seq<u8>)
    requires
        forall|j: int| 0 <= j < bytes.len() ==> bytes[j] != SEPARATOR,
    ensures
        last_dot(bytes) == -1,
    decreases bytes.len(),
{
    if bytes.len() > 0 {
        lemma_last_dot_absent(bytes.drop_last());
    }
}

proof fn lemma_last_dot_bounds(bytes: Seq<u8>)
    ensures
        -1 <= last_dot(bytes) < bytes.len(),
        last_dot(bytes) >= 0 ==> bytes[last_dot(bytes)] == SEPARATOR,
        forall|j: int| last_dot(bytes) < j < bytes.len() ==> bytes[j] != SEPARATOR,
    decreases bytes.len(),
{
    if bytes.len() > 0 && bytes.last() != SEPARATOR {
        lemma_last_dot_bounds(bytes.drop_last());
        assert forall|j: int| last_dot(bytes) < j < bytes.len() implies bytes[j] != SEPARATOR by {
            if j < bytes.len() - 1 {
                assert(bytes.drop_last()[j] == bytes[j]);
            }
        }
    }
}

proof fn lemma_first_label_error_concat(a: Seq<Seq<u8>>, b: Seq<Seq<u8>>)
    ensures
        first_label_error(a + b) == match first_label_error(a) {
            Some(e) => Some(e),
            None => first_label_error(b),
        },
    decreases a.len(),
{
    if a.len() == 0 {
        assert(a + b =~= b);
    } else {
        assert((a + b).first() == a.first());
        assert((a + b).drop_first() =~= a.drop_first() + b);
        lemma_first_label_error_concat(a.drop_first(), b);
    }
}

proof fn lemma_no_label_error(labels: Seq<Seq<u8>>)
    ensures
        first_label_error(labels) is None <==> forall|i: int|
            0 <= i < labels.len() ==> label_error(#[trigger] labels[i]) is None,
    decreases labels.len(),
{
    if labels.len() > 0 {
        lemma_no_label_error(labels.drop_first());
        if first_label_error(labels) is None {
            assert forall|i: int| 0 <= i < labels.len() implies label_error(
                #[trigger] labels[i],
            ) is None by {
                if i > 0 {
                    assert(labels[i] == labels.drop_first()[i - 1]);
                }
            }
        } else if label_error(labels.first()) is None {
            let rest = labels.drop_first();
            let i = choose|i: int| 0 <= i < rest.len() && !(label_error(#[trigger] rest[i]) is None);
            assert(rest[i] == labels[i + 1]);
        }
    }
}

/// A label is made of letters, digits and hyphens, so it is plain ASCII and
/// holds no dot.
pub proof fn lemma_label_bytes(label: Seq<u8>)
    requires
        label_error(label) is None,
    ensures
        1 <= label.len() <= MAX_LABEL_LENGTH,
        forall|i: int| 0 <= i < label.len() ==> valid_label_byte(label, i),
        forall|i: int| 0 <= i < label.len() ==> (#[trigger] label[i]) < 128 && label[i] != SEPARATOR,
{
    lemma_label_scan(label, 0);
    assert forall|i: int| 0 <= i < label.len() implies (#[trigger] label[i]) < 128 && label[i]
        != SEPARATOR by {
        assert(valid_label_byte(label, i));
    }
}

proof fn lemma_label_scan(label: Seq<u8>, from: int)
    requires
        0 <= from,
        label_scan(label, from) is None,
    ensures
        forall|i: int| from <= i < label.len() ==> valid_label_byte(label, i),
    decreases label.len() - from,
{
    if from < label.len() {
        lemma_label_scan(label, from + 1);
    }
}

/// Spelling out the labels of a name gives the name back.
pub proof fn lemma_joined_labels(bytes: Seq<u8>)
    ensures
        joined(labels_of(bytes)) == bytes,
        labels_of(bytes).len() >= 1,
    decreases bytes.len(),
{
    lemma_last_dot_bounds(bytes);
    let k = last_dot(bytes);
    if 0 <= k < bytes.len() {
        let rest = labels_of(bytes.take(k));
        let last = bytes.subrange(k + 1, bytes.len() as int);
        lemma_joined_labels(bytes.take(k));
        let all = seq![last] + rest;
        assert(all.first() == last);
        assert(all.drop_first() =~= rest);
        assert(bytes.take(k) + seq![SEPARATOR] + last =~= bytes);
    }
}

/// Splitting the spelling of labels gives the labels back, where there is at
/// least one label and none holds a dot.
pub proof fn lemma_labels_of_joined(labels: Seq<Seq<u8>>)
    requires
        labels.len() >= 1,
        forall|i: int, j: int|
            0 <= i < labels.len() && 0 <= j < labels[i].len() ==> (#[trigger] labels[i][j])
                != SEPARATOR,
    ensures
        labels_of(joined(labels)) == labels,
    decreases labels.len(),
{
    if labels.len() == 1 {
        lemma_last_dot_absent(labels.first());
        assert(labels =~= seq![labels.first()]);
    } else {
        let rest = labels.drop_first();
        let head = joined(rest);
        let name = joined(labels);
        assert forall|i: int, j: int| 0 <= i < rest.len() && 0 <= j < rest[i].len() implies (
        #[trigger] rest[i][j]) != SEPARATOR by {
            assert(rest[i] == labels[i + 1]);
        }
        lemma_labels_of_joined(rest);
        assert(name == head + seq![SEPARATOR] + labels.first());
        lemma_last_dot_found(name, head.len() as int);
        assert(name.take(head.len() as int) =~= head);
        assert(name.subrange(head.len() as int + 1, name.len() as int) =~= labels.first());
        assert(seq![labels.first()] + rest =~= labels);
    }
}

/// A parsed domain name: its labels, the top-level label first.
#[derive(Debug, PartialEq, Eq)]
pub struct Domain {
    labels: Vec<Vec<u8>>,
}

impl View for Domain {
    type V = Seq<Seq<u8>>;

    closed spec fn view(&self) -> Seq<Seq<u8>> {
        views_of(self.labels@)
    }
}

/// Copies the bytes from `from` up to `to`.
fn copy_range(bytes: &[u8], from: usize, to: usize) -> (copy: Vec<u8>)
    requires
        from <= to <= bytes@.len(),
    ensures
        copy@ == bytes@.subrange(from as int, to as int),
{
    let mut copy: Vec<u8> = Vec::new();
    let mut i = from;
    while i < to
        invariant
            from <= i <= to <= bytes@.len(),
            copy@ == bytes@.subrange(from as int, i as int),
        decreases to - i,
    {
        copy.push(bytes[i]);
        assert(copy@ =~= bytes@.subrange(from as int, i + 1));
        i = i + 1;
    }
    copy
}

/// Calls `String::from_utf8_lossy`, which reads the bytes as UTF-8. Bytes
/// below 128 are the characters of the same number, one byte each.
#[verifier::external_body]
fn ascii_string(bytes: &[u8]) -> (text: String)
    requires
        forall|i: int| 0 <= i < bytes@.len() ==> bytes@[i] < 128,
    ensures
        is_ascii_chars(text@),
        text@.len() == bytes@.len(),
        forall|i: int| 0 <= i < bytes@.len() ==> (#[trigger] text@[i]) as u8 == bytes@[i],
{
    String::from_utf8_lossy(bytes).into_owned()
}

/// Judges a label: its length first, then its bytes from the first on.
pub fn validate_label(label: &[u8]) -> (res: Option<NameServiceError>)
    ensures
        res == label_error(label@),
{
    let len = label.len();
    if len < MIN_LABEL_LENGTH || len > MAX_LABEL_LENGTH {
        return Some(NameServiceError::InvalidLength(len, MIN_LABEL_LENGTH, MAX_LABEL_LENGTH));
    }
    let mut i: usize = 0;
    while i < len
        invariant
            i <= len == label@.len(),
            MIN_LABEL_LENGTH <= len <= MAX_LABEL_LENGTH,
            label_scan(label@, 0) == label_scan(label@, i as int),
        decreases len - i,
    {
        let b = label[i];
        let valid = (97 <= b && b <= 122) || (48 <= b && b <= 57) || (b == HYPHEN && i != 0 && i
            != len - 1);
        if !valid {
            if b == HYPHEN {
                return Some(NameServiceError::InvalidHyphens);
            } else {
                return Some(NameServiceError::InvalidUnderscore);
            }
        }
        i = i + 1;
    }
    None
}

impl Domain {
    #[verifier::type_invariant]
    spec fn well_formed(&self) -> bool {
        is_domain(views_of(self.labels@))
    }

    /// Parses a name. The name must not be longer than 200 bytes, must have
    /// at least two labels, and each label must be 1 to 63 bytes of
    /// lower-case letters, digits and inner hyphens.
    pub fn parse(name: &str) -> (res: Result<Domain, NameServiceError>)
        ensures
            res matches Ok(domain) ==> parsed_domain(name.spec_bytes()) == Ok::<
                Seq<Seq<u8>>,
                NameServiceError,
            >(domain@) && is_domain(domain@),
            res matches Err(e) ==> parsed_domain(name.spec_bytes()) == Err::<
                Seq<Seq<u8>>,
                NameServiceError,
            >(e),
    {
        let bytes = name.as_bytes();
        let len = bytes.len();
        if len > MAX_DOMAIN_LENGTH {
            return Err(NameServiceError::ExceedsMaxLength(len, MAX_DOMAIN_LENGTH));
        }
        let mut labels: Vec<Vec<u8>> = Vec::new();
        let mut end = len;
        let mut i = len;
        assert(views_of(labels@) + labels_of(bytes@.take(end as int)) =~= labels_of(bytes@)) by {
            assert(bytes@.take(end as int) =~= bytes@);
        }
        while i > 0
            invariant
                i <= end <= len == bytes@.len(),
                len <= MAX_DOMAIN_LENGTH,
                bytes@ == name.spec_bytes(),
                forall|j: int| i <= j < end ==> bytes@[j] != SEPARATOR,
                labels_of(bytes@) == views_of(labels@) + labels_of(bytes@.take(end as int)),
                first_label_error(views_of(labels@)) is None,
            decreases i,
        {
            i = i - 1;
            if bytes[i] == SEPARATOR {
                let label = copy_range(bytes, i + 1, end);
                let ghost done = views_of(labels@);
                let ghost rest = labels_of(bytes@.take(i as int));
                proof {
                    let prefix = bytes@.take(end as int);
                    lemma_last_dot_found(prefix, i as int);
                    assert(prefix.take(i as int) =~= bytes@.take(i as int));
                    assert(prefix.subrange(i + 1, end as int) =~= label@);
                    assert(labels_of(bytes@) =~= done + (seq![label@] + rest));
                    lemma_first_label_error_concat(done, seq![label@] + rest);
                    assert((seq![label@] + rest).first() == label@);
                }
                match validate_label(label.as_slice()) {
                    Some(e) => {
                        return Err(e);
                    },
                    None => {},
                }
                labels.push(label);
                proof {
                    assert(views_of(labels@) =~= done + seq![label@]);
                    lemma_first_label_error_concat(done, seq![label@]);
                    assert(seq![label@].drop_first() =~= Seq::<Seq<u8>>::empty());
                    assert(first_label_error(seq![label@].drop_first()) is None);
                    assert(labels_of(bytes@) =~= views_of(labels@) + rest);
                }
                end = i;
            }
        }
        let label = copy_range(bytes, 0, end);
        let ghost done = views_of(labels@);
        proof {
            let prefix = bytes@.take(end as int);
            lemma_last_dot_absent(prefix);
            assert(prefix =~= label@);
            assert(labels_of(bytes@) =~= done + seq![label@]);
            lemma_first_label_error_concat(done, seq![label@]);
            assert(seq![label@].first() == label@);
            assert(seq![label@].drop_first() =~= Seq::<Seq<u8>>::empty());
            assert(first_label_error(seq![label@].drop_first()) is None);
        }
        match validate_label(label.as_slice()) {
            Some(e) => {
                return Err(e);
            },
            None => {},
        }
        labels.push(label);
        proof {
            assert(views_of(labels@) =~= done + seq![label@]);
            lemma_no_label_error(views_of(labels@));
        }
        if labels.len() < 2 {
            return Err(NameServiceError::LabelsEmpty);
        }
        Ok(Domain { labels })
    }

    /// The domain with the given labels, the top-level label first; none
    /// where they are fewer than two or one of them is no label.
    pub fn from_labels(labels: Vec<Vec<u8>>) -> (res: Option<Domain>)
        ensures
            res matches Some(domain) ==> domain@ == views_of(labels@) && is_domain(domain@),
            res is None ==> !is_domain(views_of(labels@)),
    {
        if labels.len() < 2 {
            return None;
        }
        let ghost all = views_of(labels@);
        let mut i: usize = 0;
        while i < labels.len()
            invariant
                i <= labels@.len(),
                all == views_of(labels@),
                forall|j: int| 0 <= j < i ==> label_error(#[trigger] all[j]) is None,
            decreases labels@.len() - i,
        {
            match validate_label(labels[i].as_slice()) {
                Some(_) => {
                    assert(!(label_error(all[i as int]) is None));
                    return None;
                },
                None => {},
            }
            i = i + 1;
        }
        Some(Domain { labels })
    }

    /// Appends the canonical encoding of the domain: the count of its
    /// labels, then each label behind its length, the top-level label first.
    pub fn encode_into(&self, out: &mut Vec<u8>)
        ensures
            final(out)@ == old(out)@ + domain_encoding(self@),
    {
        let ghost start = out@;
        let ghost all = views_of(self.labels@);
        push_uleb128(out, self.labels.len());
        let ghost head = out@;
        let mut i: usize = 0;
        while i < self.labels.len()
            invariant
                i <= self.labels@.len(),
                all == views_of(self.labels@),
                out@ == head + strings_encoding(all.take(i as int)),
            decreases self.labels@.len() - i,
        {
            push_length_prefixed(out, self.labels[i].as_slice());
            proof {
                assert(all.take(i + 1).drop_last() =~= all.take(i as int));
                assert(all.take(i + 1).last() == all[i as int]);
                assert(out@ =~= head + strings_encoding(all.take(i + 1)));
            }
            i = i + 1;
        }
        assert(all.take(i as int) =~= all);
        assert(out@ =~= start + domain_encoding(all));
    }

    /// The bytes of the name that the domain spells.
    pub fn name_bytes(&self) -> (name: Vec<u8>)
        ensures
            name@ == joined(self@),
            is_domain(self@),
            forall|i: int| 0 <= i < name@.len() ==> name@[i] < 128,
    {
        proof {
            use_type_invariant(self);
        }
        let count = self.labels.len();
        let ghost all = views_of(self.labels@);
        let mut name: Vec<u8> = Vec::new();
        let mut i = count;
        assert(all.skip(count as int) =~= Seq::<Seq<u8>>::empty());
        while i > 0
            invariant
                i <= count == self.labels@.len(),
                all == views_of(self.labels@),
                is_domain(all),
                name@ == joined(all.skip(i as int)),
                forall|j: int| 0 <= j < name@.len() ==> name@[j] < 128,
            decreases i,
        {
            i = i - 1;
            let ghost before = name@;
            if i + 1 < count {
                name.push(SEPARATOR);
            }
            let ghost middle = name@;
            push_all(&mut name, self.labels[i].as_slice());
            proof {
                let tail = all.skip(i as int);
                assert(tail.first() == all[i as int]);
                assert(tail.drop_first() =~= all.skip(i + 1));
                lemma_label_bytes(all[i as int]);
                assert(name@ =~= joined(tail));
                assert forall|j: int| 0 <= j < name@.len() implies name@[j] < 128 by {
                    if j >= middle.len() {
                        assert(name@[j] == all[i as int][j - middle.len()]);
                    }
                }
            }
        }
        assert(all.skip(0) =~= all);
        name
    }

    /// The name that the domain spells, its top-level label last.
    pub fn to_string(&self) -> (text: String)
        ensures
            encode_utf8(text@) == joined(self@),
            is_ascii_chars(text@),
    {
        let name = self.name_bytes();
        let text = ascii_string(name.as_slice());
        proof {
            is_ascii_chars_encode_utf8(text@);
            assert(encode_utf8(text@) =~= name@);
        }
        text
    }

    /// How many labels the domain has.
    pub fn num_labels(&self) -> (count: usize)
        ensures
            count == self@.len(),
            count >= 2,
    {
        proof {
            use_type_invariant(self);
        }
        self.labels.len()
    }

    /// The label at `i`, counted from the top-level label.
    pub fn label(&self, i: usize) -> (label: Option<&[u8]>)
        ensures
            i < self@.len() ==> (label matches Some(bytes) && bytes@ == self@[i as int]),
            i >= self@.len() ==> label is None,
    {
        if i < self.labels.len() {
            Some(self.labels[i].as_slice())
        } else {
            None
        }
    }
}

/// Parsing a name and spelling the domain out gives the name back.
pub proof fn lemma_parse_then_spell(name: Seq<u8>)
    requires
        parsed_domain(name) is Ok,
    ensures
        joined(parsed_domain(name)->Ok_0) == name,
        is_domain(parsed_domain(name)->Ok_0),
{
    lemma_joined_labels(name);
    lemma_no_label_error(labels_of(name));
}

/// Spelling a domain out and parsing the name gives the domain back, where
/// the name is not too long to parse.
pub proof fn lemma_spell_then_parse(labels: Seq<Seq<u8>>)
    requires
        is_domain(labels),
        joined(labels).len() <= MAX_DOMAIN_LENGTH,
    ensures
        parsed_domain(joined(labels)) == Ok::<Seq<Seq<u8>>, NameServiceError>(labels),
{
    assert forall|i: int, j: int| 0 <= i < labels.len() && 0 <= j < labels[i].len() implies (
    #[trigger] labels[i][j]) != SEPARATOR by {
        lemma_label_bytes(labels[i]);
    }
    lemma_labels_of_joined(labels);
    lemma_no_label_error(labels);
}

/// Where the name service of a network lives.
#[derive(Clone, Copy, Debug, PartialEq, Eq)]
pub struct NameServiceConfig {
    /// The package that declares the types of the name service.
    pub package_address: MgoAddress,
    /// The table of forward records: from a domain to its name record.
    pub registry_id: ObjectID,
    /// The table of reverse records: from an address to its domain.
    pub reverse_registry_id: ObjectID,
}

/// The encoding of the type of a domain: the struct `domain::Domain` of the
/// name service package.
pub open spec fn domain_type_encoding(package_address: MgoAddress) -> Seq<u8> {
    struct_encoding(
        package_address,
        "domain".spec_bytes(),
        "Domain".spec_bytes(),
        Seq::<TypeTag>::empty(),
    )
}

/// The bytes of the id under which the forward record of a domain is stored:
/// that of the field of the registry named by the domain.
pub open spec fn record_id_bytes(config: NameServiceConfig, labels: Seq<Seq<u8>>) -> Seq<u8> {
    derived_field_id(
        config.registry_id,
        domain_type_encoding(config.package_address),
        domain_encoding(labels),
    )
}

/// The bytes of the id under which the reverse record of an address is
/// stored: that of the field of the reverse registry named by the address.
pub open spec fn reverse_record_id_bytes(config: NameServiceConfig, address: MgoAddress) -> Seq<u8> {
    derived_field_id(
        config.reverse_registry_id,
        seq![primitive_kind(PrimitiveType::Address)],
        address.0@,
    )
}

impl NameServiceConfig {
    /// A name service with the given package and tables.
    pub fn new(package_address: MgoAddress, registry_id: ObjectID, reverse_registry_id: ObjectID) -> (config:
        Self)
        ensures
            config == (NameServiceConfig { package_address, registry_id, reverse_registry_id }),
    {
        NameServiceConfig { package_address, registry_id, reverse_registry_id }
    }

    /// The id of the forward record of a domain.
    pub fn record_field_id(&self, domain: &Domain) -> (id: ObjectID)
        ensures
            id.0@ == record_id_bytes(*self, domain@),
    {
        let no_params: Vec<TypeTag> = Vec::new();
        let domain_type = TypeTag::structure(self.package_address, "domain", "Domain", &no_params);
        let mut key: Vec<u8> = Vec::new();
        domain.encode_into(&mut key);
        assert(key@ =~= domain_encoding(domain@));
        derive_dynamic_field_id(self.registry_id, &domain_type, key.as_slice())
    }

    /// The id of the reverse record of an address.
    pub fn reverse_record_field_id(&self, address: &MgoAddress) -> (id: ObjectID)
        ensures
            id.0@ == reverse_record_id_bytes(*self, *address),
    {
        let address_type = TypeTag::primitive(PrimitiveType::Address);
        derive_dynamic_field_id(
            self.reverse_registry_id,
            &address_type,
            array_as_slice(&address.0),
        )
    }
}

impl Default for NameServiceConfig {
    /// The configuration of a network on which no name service is deployed:
    /// the package and both tables at the zero address.
    fn default() -> (config: Self)
        ensures
            config.package_address.0@ == zero_bytes(),
            config.registry_id.0@ == zero_bytes(),
            config.reverse_registry_id.0@ == zero_bytes(),
    {
        NameServiceConfig {
            package_address: MgoAddress::zero(),
            registry_id: ObjectID::zero(),
            reverse_registry_id: ObjectID::zero(),
        }
    }
}

} // verus!
