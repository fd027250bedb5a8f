//! Ordered type-length-value payload fields.

use std::collections::BTreeMap;
use vstd::prelude::*;
use vstd::utf8::decode_utf8;
use vstd::utf8::encode_utf8;
use vstd::utf8::valid_utf8;

use crate::le::le_bytes;
use crate::le::le_value;
use crate::le::push_le;
use crate::le::read_le;
use crate::protocol::error::ProtocolError;
use crate::text::utf8_text;

verus! {

/// The bytes of one field: the tag in two bytes, the length in four, then the value.
pub open spec fn field_bytes(tag: u16, value: Seq<u8>) -> Seq<u8> {
    le_bytes(tag as nat, 2) + le_bytes(value.len(), 4) + value
}

/// The bytes of the fields with the tag `from` or a higher one, the lowest tag first.
pub open spec fn fields_bytes(m: Map<u16, Seq<u8>>, from: int) -> Seq<u8>
    decreases 0x1_0000 - from,
{
    if from < 0 || from > 0xffff {
        Seq::empty()
    } else if m.contains_key(from as u16) {
        field_bytes(from as u16, m[from as u16]) + fields_bytes(m, from + 1)
    } else {
        fields_bytes(m, from + 1)
    }
}

/// Whether the length of every value fits in its four bytes.
pub open spec fn values_fit(m: Map<u16, Seq<u8>>) -> bool {
    forall|tag: u16| #[trigger] m.contains_key(tag) ==> m[tag].len() <= u32::MAX
}

/// Whether `tag` is the lowest tag whose value is too long.
pub open spec fn first_too_long(m: Map<u16, Seq<u8>>, tag: u16) -> bool {
    &&& m.contains_key(tag)
    &&& m[tag].len() > u32::MAX
    &&& forall|other: u16| #[trigger] m.contains_key(other) && other < tag ==> m[other].len()
        <= u32::MAX
}

/// What a payload holds beyond the fields already read: each field is read in turn, and the
/// first fault ends the reading.
pub open spec fn parsed_fields(input: Seq<u8>, read: Map<u16, Seq<u8>>) -> Result<
    Map<u16, Seq<u8>>,
    ProtocolError,
>
    decreases input.len(),
{
    let tag = le_value(input.take(2)) as u16;
    let len = le_value(input.subrange(2, 6));
    if input.len() == 0 {
        Ok(read)
    } else if input.len() < 6 {
        Err(ProtocolError::MalformedFields)
    } else if tag == 0 {
        Err(ProtocolError::ReservedFieldTag)
    } else if 6 + len > usize::MAX {
        Err(ProtocolError::FieldTooLarge { tag, size: len as usize })
    } else if 6 + len > input.len() {
        Err(ProtocolError::MalformedFields)
    } else if read.contains_key(tag) {
        Err(ProtocolError::DuplicateField(tag))
    } else {
        parsed_fields(
            input.skip((6 + len) as int),
            read.insert(tag, input.subrange(6, (6 + len) as int)),
        )
    }
}

/// The value of a field that has to be there and to have `expected` bytes.
pub open spec fn fixed_field(m: Map<u16, Seq<u8>>, tag: u16, expected: usize) -> Result<
    nat,
    ProtocolError,
> {
    if !m.contains_key(tag) {
        Err(ProtocolError::MissingField(tag))
    } else if m[tag].len() != expected {
        Err(ProtocolError::InvalidFieldSize { tag, expected })
    } else {
        Ok(le_value(m[tag]))
    }
}

/// The text of a field that has to be there and to be valid UTF-8.
pub open spec fn text_field(m: Map<u16, Seq<u8>>, tag: u16) -> Result<Seq<char>, ProtocolError> {
    if !m.contains_key(tag) {
        Err(ProtocolError::MissingField(tag))
    } else if !valid_utf8(m[tag]) {
        Err(ProtocolError::InvalidUtf8Field(tag))
    } else {
        Ok(decode_utf8(m[tag]))
    }
}

/// Ordered type-length-value payload fields.
#[derive(Debug, Clone, PartialEq, Eq)]
pub struct Fields(BTreeMap<u16, Vec<u8>>);

impl View for Fields {
    type V = Map<u16, Seq<u8>>;

    closed spec fn view(&self) -> Map<u16, Seq<u8>> {
        self.0@.map_values(|v: Vec<u8>| v@)
    }
}

impl Default for Fields {
    /// No field.
    fn default() -> (r: Self)
        ensures
            r@ == Map::<u16, Seq<u8>>::empty(),
            r.wf(),
    {
        let r = Fields(BTreeMap::new());
        proof {
            assert(r@ =~= Map::<u16, Seq<u8>>::empty());
        }
        r
    }
}

impl Fields {
    /// No field has the reserved tag zero.
    pub open spec fn wf(&self) -> bool {
        !self@.contains_key(0)
    }

    /// Insert a raw field.
    ///
    /// # Errors
    ///
    /// Returns an error when the reserved tag zero is used.
    pub fn insert(&mut self, tag: u16, value: Vec<u8>) -> (r: Result<(), ProtocolError>)
        ensures
            tag == 0 ==> r == Err::<(), ProtocolError>(ProtocolError::ReservedFieldTag)
                && final(self)@ == old(self)@,
            tag != 0 ==> r == Ok::<(), ProtocolError>(()) && final(self)@ == old(self)@.insert(
                tag,
                value@,
            ),
            old(self).wf() ==> final(self).wf(),
    {
        if tag == 0 {
            return Err(ProtocolError::ReservedFieldTag);
        }
        self.0.insert(tag, value);
        proof {
            assert(self@ =~= old(self)@.insert(tag, value@));
        }
        Ok(())
    }

    /// Insert an unsigned 16-bit value.
    ///
    /// # Errors
    ///
    /// Returns an error when the reserved tag zero is used.
    pub fn insert_u16(&mut self, tag: u16, value: u16) -> (r: Result<(), ProtocolError>)
        ensures
            tag == 0 ==> r == Err::<(), ProtocolError>(ProtocolError::ReservedFieldTag)
                && final(self)@ == old(self)@,
            tag != 0 ==> r == Ok::<(), ProtocolError>(()) && final(self)@ == old(self)@.insert(
                tag,
                le_bytes(value as nat, 2),
            ),
            old(self).wf() ==> final(self).wf(),
    {
        let mut bytes: Vec<u8> = Vec::new();
        push_le(&mut bytes, value as u64, 2);
        proof {
            assert(bytes@ =~= le_bytes(value as nat, 2));
        }
        self.insert(tag, bytes)
    }

    /// Insert an unsigned 32-bit value.
    ///
    /// # Errors
    ///
    /// Returns an error when the reserved tag zero is used.
    pub fn insert_u32(&mut self, tag: u16, value: u32) -> (r: Result<(), ProtocolError>)
        ensures
            tag == 0 ==> r == Err::<(), ProtocolError>(ProtocolError::ReservedFieldTag)
                && final(self)@ == old(self)@,
            tag != 0 ==> r == Ok::<(), ProtocolError>(()) && final(self)@ == old(self)@.insert(
                tag,
                le_bytes(value as nat, 4),
            ),
            old(self).wf() ==> final(self).wf(),
    {
        let mut bytes: Vec<u8> = Vec::new();
        push_le(&mut bytes, value as u64, 4);
        proof {
            assert(bytes@ =~= le_bytes(value as nat, 4));
        }
        self.insert(tag, bytes)
    }

    /// Insert an unsigned 64-bit value.
    ///
    /// # Errors
    ///
    /// Returns an error when the reserved tag zero is used.
    pub fn insert_u64(&mut self, tag: u16, value: u64) -> (r: Result<(), ProtocolError>)
        ensures
            tag == 0 ==> r == Err::<(), ProtocolError>(ProtocolError::ReservedFieldTag)
                && final(self)@ == old(self)@,
            tag != 0 ==> r == Ok::<(), ProtocolError>(()) && final(self)@ == old(self)@.insert(
                tag,
                le_bytes(value as nat, 8),
            ),
            old(self).wf() ==> final(self).wf(),
    {
        let mut bytes: Vec<u8> = Vec::new();
        push_le(&mut bytes, value, 8);
        proof {
            assert(bytes@ =~= le_bytes(value as nat, 8));
        }
        self.insert(tag, bytes)
    }

    /// Insert a UTF-8 string.
    ///
    /// # Errors
    ///
    /// Returns an error when the reserved tag zero is used.
    pub fn insert_string(&mut self, tag: u16, value: &str) -> (r: Result<(), ProtocolError>)
        ensures
            tag == 0 ==> r == Err::<(), ProtocolError>(ProtocolError::ReservedFieldTag)
                && final(self)@ == old(self)@,
            tag != 0 ==> r == Ok::<(), ProtocolError>(()) && final(self)@ == old(self)@.insert(
                tag,
                encode_utf8(value@),
            ),
            old(self).wf() ==> final(self).wf(),
    {
        let bytes: Vec<u8> = vstd::slice::slice_to_vec(value.as_bytes());
        self.insert(tag, bytes)
    }

    /// Get a raw field.
    #[must_use]
    pub fn get(&self, tag: u16) -> (r: Option<&[u8]>)
        ensures
            match r {
                Some(value) => self@.contains_key(tag) && value@ == self@[tag],
                None => !self@.contains_key(tag),
            },
    {
        match self.0.get(&tag) {
            Some(value) => Some(value.as_slice()),
            None => None,
        }
    }

    fn require_fixed(&self, tag: u16, expected: usize) -> (r: Result<u64, ProtocolError>)
        requires
            expected <= 8,
        ensures
            match r {
                Ok(value) => fixed_field(self@, tag, expected) == Ok::<nat, ProtocolError>(value as nat)
                    && value < crate::le::le_limit(expected as nat),
                Err(e) => fixed_field(self@, tag, expected) == Err::<nat, ProtocolError>(e),
            },
    {
        let value = match self.require(tag) {
            Ok(value) => value,
            Err(e) => return Err(e),
        };
        if value.len() != expected {
            return Err(ProtocolError::InvalidFieldSize { tag, expected });
        }
        proof {
            assert(value@.subrange(0, expected as int) =~= value@);
        }
        Ok(read_le(value, 0, expected))
    }

    /// Read an unsigned 16-bit field.
    ///
    /// # Errors
    ///
    /// Returns an error if the field is absent or has the wrong size.
    pub fn require_u16(&self, tag: u16) -> (r: Result<u16, ProtocolError>)
        ensures
            match r {
                Ok(value) => fixed_field(self@, tag, 2) == Ok::<nat, ProtocolError>(value as nat),
                Err(e) => fixed_field(self@, tag, 2) == Err::<nat, ProtocolError>(e),
            },
    {
        proof {
            crate::le::lemma_le_limits();
        }
        match self.require_fixed(tag, 2) {
            Ok(value) => Ok(value as u16),
            Err(e) => Err(e),
        }
    }

    /// Read an unsigned 32-bit field.
    ///
    /// # Errors
    ///
    /// Returns an error if the field is absent or has the wrong size.
    pub fn require_u32(&self, tag: u16) -> (r: Result<u32, ProtocolError>)
        ensures
            match r {
                Ok(value) => fixed_field(self@, tag, 4) == Ok::<nat, ProtocolError>(value as nat),
                Err(e) => fixed_field(self@, tag, 4) == Err::<nat, ProtocolError>(e),
            },
    {
        proof {
            crate::le::lemma_le_limits();
        }
        match self.require_fixed(tag, 4) {
            Ok(value) => Ok(value as u32),
            Err(e) => Err(e),
        }
    }

    /// Read an unsigned 64-bit field.
    ///
    /// # Errors
    ///
    /// Returns an error if the field is absent or has the wrong size.
    pub fn require_u64(&self, tag: u16) -> (r: Result<u64, ProtocolError>)
        ensures
            match r {
                Ok(value) => fixed_field(self@, tag, 8) == Ok::<nat, ProtocolError>(value as nat),
                Err(e) => fixed_field(self@, tag, 8) == Err::<nat, ProtocolError>(e),
            },
    {
        self.require_fixed(tag, 8)
    }

    /// Read a UTF-8 field.
    ///
    /// # Errors
    ///
    /// Returns an error if the field is absent or is not valid UTF-8.
    pub fn require_string(&self, tag: u16) -> (r: Result<&str, ProtocolError>)
        ensures
            match r {
                Ok(value) => text_field(self@, tag) == Ok::<Seq<char>, ProtocolError>(value@),
                Err(e) => text_field(self@, tag) == Err::<Seq<char>, ProtocolError>(e),
            },
    {
        let value = match self.require(tag) {
            Ok(value) => value,
            Err(e) => return Err(e),
        };
        match utf8_text(value) {
            Some(text) => {
                proof {
                    vstd::utf8::encode_utf8_decode_utf8(text@);
                }
                Ok(text)
            },
            None => Err(ProtocolError::InvalidUtf8Field(tag)),
        }
    }

    /// Return the number of fields.
    #[must_use]
    pub fn len(&self) -> (r: usize)
        ensures
            r == self@.dom().len(),
    {
        proof {
            assert(self@.dom() =~= self.0@.dom());
        }
        self.0.len()
    }

    /// Test whether the payload has no fields.
    #[must_use]
    pub fn is_empty(&self) -> (r: bool)
        ensures
            r == (self@ == Map::<u16, Seq<u8>>::empty()),
    {
        proof {
            if self.0@.is_empty() {
                assert(self@ =~= Map::<u16, Seq<u8>>::empty());
            } else {
                assert(self@.dom() =~= self.0@.dom());
            }
        }
        self.0.is_empty()
    }

    fn require(&self, tag: u16) -> (r: Result<&[u8], ProtocolError>)
        ensures
            match r {
                Ok(value) => self@.contains_key(tag) && value@ == self@[tag],
                Err(e) => !self@.contains_key(tag) && e == ProtocolError::MissingField(tag),
            },
    {
        match self.get(tag) {
            Some(value) => Ok(value),
            None => Err(ProtocolError::MissingField(tag)),
        }
    }

    /// Encode the fields, the lowest tag first.
    ///
    /// # Errors
    ///
    /// Returns an error when the length of a value does not fit in its four bytes.
    pub(crate) fn encode(&self) -> (r: Result<Vec<u8>, ProtocolError>)
        ensures
            match r {
                Ok(bytes) => values_fit(self@) && bytes@ == fields_bytes(self@, 0),
                Err(e) => exists|tag: u16| #[trigger]
                    first_too_long(self@, tag) && e == (ProtocolError::FieldTooLarge {
                        tag,
                        size: self@[tag].len() as usize,
                    }),
            },
    {
        let tags = self.sorted_tags();
        let mut output: Vec<u8> = Vec::new();
        let ghost m = self@;
        let ghost mut next: int = 0;
        let mut i: usize = 0;
        proof {
            assert(output@ + fields_bytes(m, 0) =~= fields_bytes(m, 0));
        }
        while i < tags.len()
            invariant
                m == self@,
                i <= tags@.len(),
                0 <= next <= 0x1_0000,
                output@ + fields_bytes(m, next) == fields_bytes(m, 0),
                forall|a: int, b: int| 0 <= a < b < tags@.len() ==> tags@[a] < tags@[b],
                forall|a: int| 0 <= a < tags@.len() ==> m.contains_key(#[trigger] tags@[a]),
                forall|k: u16| #[trigger] m.contains_key(k) ==> tags@.contains(k),
                forall|a: int| 0 <= a < i ==> #[trigger] tags@[a] < next,
                forall|a: int| i <= a < tags@.len() ==> #[trigger] tags@[a] >= next,
                forall|k: u16| #[trigger]
                    m.contains_key(k) && k < next ==> m[k].len() <= u32::MAX,
            decreases tags@.len() - i,
        {
            let tag: u16 = tags[i];
            proof {
                assert forall|k: u16| #[trigger] m.contains_key(k) implies !(next <= k < tag) by {
                    let a = tags@.index_of(k);
                    assert(tags@[a] == k);
                }
                lemma_no_field_between(m, next, tag as int);
            }
            let value = match self.get(tag) {
                Some(value) => value,
                None => return Ok(output),
            };
            if value.len() as u64 > u32::MAX as u64 {
                proof {
                    assert(first_too_long(self@, tag));
                }
                return Err(ProtocolError::FieldTooLarge { tag, size: value.len() });
            }
            let ghost before = output@;
            push_le(&mut output, tag as u64, 2);
            push_le(&mut output, value.len() as u64, 4);
            output.extend_from_slice(value);
            proof {
                assert(output@ =~= before + field_bytes(tag, value@));
                assert(output@ + fields_bytes(m, tag + 1) =~= before + fields_bytes(m, tag as int));
                next = tag + 1;
            }
            i = i + 1;
        }
        proof {
            assert forall|k: u16| #[trigger] m.contains_key(k) implies k < next by {
                let a = tags@.index_of(k);
                assert(tags@[a] == k);
            }
            lemma_no_field_between(m, next, 0x1_0000);
            assert(output@ + fields_bytes(m, 0x1_0000) =~= output@);
        }
        Ok(output)
    }

    /// The tags that have a field, the lowest first.
    fn sorted_tags(&self) -> (tags: Vec<u16>)
        ensures
            forall|a: int, b: int| 0 <= a < b < tags@.len() ==> tags@[a] < tags@[b],
            forall|a: int| 0 <= a < tags@.len() ==> self@.contains_key(#[trigger] tags@[a]),
            forall|k: u16| #[trigger] self@.contains_key(k) ==> tags@.contains(k),
    {
        broadcast use vstd::std_specs::btree::group_btree_axioms;
        broadcast use vstd::laws_cmp::group_laws_cmp;

        let entries = self.0.iter();
        let ghost items = vstd::std_specs::iter::IteratorSpec::remaining(&entries);
        proof {
            let keys = items.map_values(|kv: (&u16, &Vec<u8>)| *kv.0);
            assert(vstd::laws_cmp::obeys_cmp::<u16>());
            assert(vstd::std_specs::btree::increasing_seq(keys));
            assert forall|a: int, b: int| 0 <= a < b < items.len() implies *(#[trigger] items[a]).0
                < *(#[trigger] items[b]).0 by {
                assert(keys[a] == *items[a].0);
                assert(keys[b] == *items[b].0);
                assert(vstd::std_specs::cmp::OrdSpec::cmp_spec(&keys[a], &keys[b]) is Less);
            }
            assert forall|k: u16| #[trigger] self.0@.contains_key(k) implies exists|a: int|
                0 <= a < items.len() && *(#[trigger] items[a]).0 == k by {
                assert(items.contains((&k, &self.0@[k])));
            }
            assert forall|a: int| 0 <= a < items.len() implies self.0@.contains_key(
                *(#[trigger] items[a]).0,
            ) by {
            }
        }
        let mut tags: Vec<u16> = Vec::new();
        for entry in it: entries
            invariant
                it.seq() == items,
                tags@.len() == it.index(),
                forall|a: int| 0 <= a < tags@.len() ==> #[trigger] tags@[a] == *items[a].0,
        {
            tags.push(*entry.0);
        }
        proof {
            assert forall|k: u16| #[trigger] self@.contains_key(k) implies tags@.contains(k) by {
                assert(self.0@.contains_key(k));
                let a = choose|a: int| 0 <= a < items.len() && *(#[trigger] items[a]).0 == k;
                assert(tags@[a] == k);
            }
        }
        tags
    }

    pub(crate) fn decode(input: &[u8]) -> (r: Result<Self, ProtocolError>)
        ensures
            match r {
                Ok(fields) => parsed_fields(input@, Map::empty()) == Ok::<
                    Map<u16, Seq<u8>>,
                    ProtocolError,
                >(fields@) && fields.wf(),
                Err(e) => parsed_fields(input@, Map::empty()) == Err::<
                    Map<u16, Seq<u8>>,
                    ProtocolError,
                >(e),
            },
    {
        let total: usize = input.len();
        let mut fields = Fields::default();
        let mut at: usize = 0;
        proof {
            assert(input@.skip(0) =~= input@);
        }
        while at < total
            invariant
                total == input@.len(),
                at <= total,
                fields.wf(),
                parsed_fields(input@, Map::empty()) == parsed_fields(input@.skip(at as int), fields@),
            decreases total - at,
        {
            let ghost rest = input@.skip(at as int);
            if total - at < 6 {
                return Err(ProtocolError::MalformedFields);
            }
            proof {
                crate::le::lemma_le_limits();
                assert(input@.subrange(at as int, at + 2) =~= rest.take(2));
                assert(input@.subrange(at + 2, at + 6) =~= rest.subrange(2, 6));
            }
            let tag: u16 = read_le(input, at, 2) as u16;
            if tag == 0 {
                return Err(ProtocolError::ReservedFieldTag);
            }
            let len: u64 = read_le(input, at + 2, 4);
            if len > usize::MAX as u64 - 6 {
                return Err(ProtocolError::FieldTooLarge { tag, size: len as usize });
            }
            let end: usize = 6 + len as usize;
            if end > total - at {
                return Err(ProtocolError::MalformedFields);
            }
            if self::has(&fields, tag) {
                return Err(ProtocolError::DuplicateField(tag));
            }
            let value: Vec<u8> = vstd::slice::slice_to_vec(
                vstd::slice::slice_subrange(input, at + 6, at + end),
            );
            proof {
                assert(value@ =~= rest.subrange(6, end as int));
                assert(rest.skip(end as int) =~= input@.skip(at + end));
            }
            let _ = fields.insert(tag, value);
            at = at + end;
        }
        Ok(fields)
    }
}

/// Tags that no field has add no bytes.
proof fn lemma_no_field_between(m: Map<u16, Seq<u8>>, from: int, to: int)
    requires
        0 <= from <= to <= 0x1_0000,
        forall|k: u16| #[trigger] m.contains_key(k) ==> !(from <= k < to),
    ensures
        fields_bytes(m, from) == fields_bytes(m, to),
    decreases to - from,
{
    if from < to {
        assert(!m.contains_key(from as u16));
        lemma_no_field_between(m, from + 1, to);
    }
}

/// A new field adds the bytes of its tag, of its length and of its value.
pub proof fn lemma_insert_len(m: Map<u16, Seq<u8>>, tag: u16, value: Seq<u8>, from: int)
    requires
        0 <= from <= 0x1_0000,
        !m.contains_key(tag),
    ensures
        fields_bytes(m.insert(tag, value), from).len() == fields_bytes(m, from).len() + if from
            <= tag {
            6 + value.len()
        } else {
            0
        },
    decreases 0x1_0000 - from,
{
    if from <= 0xffff {
        let k = from as u16;
        crate::le::lemma_le_bytes_len(k as nat, 2);
        crate::le::lemma_le_bytes_len(value.len(), 4);
        if k != tag && m.contains_key(k) {
            crate::le::lemma_le_bytes_len(m[k].len(), 4);
        }
        lemma_insert_len(m, tag, value, from + 1);
    }
}

/// No field takes no bytes.
pub proof fn lemma_empty_len(from: int)
    requires
        0 <= from <= 0x1_0000,
    ensures
        fields_bytes(Map::empty(), from).len() == 0,
    decreases 0x1_0000 - from,
{
    if from <= 0xffff {
        lemma_empty_len(from + 1);
    }
}

/// Writing the fields that were read takes as many bytes as they were read from.
pub proof fn law_reencoded_len(input: Seq<u8>, read: Map<u16, Seq<u8>>)
    requires
        parsed_fields(input, read) is Ok,
    ensures
        fields_bytes(parsed_fields(input, read)->Ok_0, 0).len() == fields_bytes(read, 0).len()
            + input.len(),
    decreases input.len(),
{
    if input.len() > 0 {
        let tag = le_value(input.take(2)) as u16;
        let len = le_value(input.subrange(2, 6));
        let value = input.subrange(6, (6 + len) as int);
        lemma_insert_len(read, tag, value, 0);
        law_reencoded_len(input.skip((6 + len) as int), read.insert(tag, value));
    }
}

/// The fields of `m` with a tag below `limit`.
pub open spec fn fields_below(m: Map<u16, Seq<u8>>, limit: int) -> Map<u16, Seq<u8>> {
    m.restrict(Set::new(|tag: u16| tag < limit))
}

/// Reading the payload that was written gives back the fields.
pub proof fn law_fields_round_trip(m: Map<u16, Seq<u8>>)
    requires
        !m.contains_key(0),
        values_fit(m),
        fields_bytes(m, 0).len() <= usize::MAX,
    ensures
        parsed_fields(fields_bytes(m, 0), Map::empty()) == Ok::<Map<u16, Seq<u8>>, ProtocolError>(m),
{
    lemma_fields_round_trip_from(m, 0);
    assert(fields_below(m, 0) =~= Map::empty());
}

proof fn lemma_fields_round_trip_from(m: Map<u16, Seq<u8>>, from: int)
    requires
        0 <= from <= 0x1_0000,
        !m.contains_key(0),
        values_fit(m),
        fields_bytes(m, from).len() <= usize::MAX,
    ensures
        parsed_fields(fields_bytes(m, from), fields_below(m, from)) == Ok::<
            Map<u16, Seq<u8>>,
            ProtocolError,
        >(m),
    decreases 0x1_0000 - from,
{
    if from > 0xffff {
        assert(fields_below(m, from) =~= m);
    } else {
        let tag = from as u16;
        if m.contains_key(tag) {
            let value = m[tag];
            let rest = fields_bytes(m, from + 1);
            let all = fields_bytes(m, from);
            crate::le::lemma_le_bytes_len(tag as nat, 2);
            crate::le::lemma_le_bytes_len(value.len(), 4);
            crate::le::lemma_le_limits();
            crate::le::lemma_le_round_trip(tag as nat, 2);
            crate::le::lemma_le_round_trip(value.len(), 4);
            assert(all =~= field_bytes(tag, value) + rest);
            assert(all.take(2) =~= le_bytes(tag as nat, 2));
            assert(all.subrange(2, 6) =~= le_bytes(value.len(), 4));
            assert(all.subrange(6, (6 + value.len()) as int) =~= value);
            assert(all.skip((6 + value.len()) as int) =~= rest);
            assert(fields_below(m, from + 1) =~= fields_below(m, from).insert(tag, value));
            lemma_fields_round_trip_from(m, from + 1);
        } else {
            assert(fields_below(m, from + 1) =~= fields_below(m, from));
            lemma_fields_round_trip_from(m, from + 1);
        }
    }
}

fn has(fields: &Fields, tag: u16) -> (r: bool)
    ensures
        r == fields@.contains_key(tag),
{
    fields.get(tag).is_some()
}

} // verus!
