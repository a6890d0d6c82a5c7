//! The tag that precedes every encoded field: a number, a class and a
//! length, packed into one lead byte and up to six extension bytes.

use crate::error::Error;
use crate::nsdu::{
    be_bytes, decoded, lemma_be_bytes_len, lemma_be_bytes_of_be_value, lemma_be_prefix_value,
    lemma_parse_unsigned_extends, lemma_parse_unsigned_of_be_bytes, parse_unsigned,
    spec_parse_unsigned,
};
use vstd::arithmetic::power::pow;
use vstd::prelude::*;
use vstd::seq_lib::lemma_concat_associative;

verus! {

/// Whether a tag's number names a data type or a position in the enclosing
/// service's layout.
#[derive(Debug, Clone, Copy, PartialEq, Eq, Structural)]
pub enum TagClass {
    Application,
    ContextSpecific,
}

/// The data types that an application tag can announce, in the order of
/// their tag numbers, from 0 for `Null` to 12 for `ObjectId`.
#[derive(Debug, Clone, Copy, PartialEq, Eq, Structural)]
pub enum TagType {
    Null,
    Boolean,
    UnsignedInt,
    SignedInt,
    Real,
    Double,
    OctetString,
    CharacterString,
    BitString,
    Enumerated,
    Date,
    Time,
    ObjectId,
}

/// Whether a tag introduces a single value or brackets a constructed one.
#[derive(Debug, Clone, Copy, PartialEq, Eq, Structural)]
pub enum TagForm {
    /// The tag is followed by a value of `value` bytes (for a boolean, `value` is the value itself).
    Primitive,
    /// The tag opens a constructed value.
    Opening,
    /// The tag closes a constructed value.
    Closing,
}

/// A decoded tag.
#[derive(Debug, Clone, Copy, PartialEq, Eq, Structural)]
pub struct Tag {
    /// The tag number. A header can declare any number up to 255; the
    /// numbers in use end at 254.
    pub number: u8,
    /// The class of the tag.
    pub class: TagClass,
    /// The length of the value that follows, in bytes; 0 for an opening or closing tag.
    pub value: u32,
    /// The form of the tag.
    pub form: TagForm,
}

/// The tag-number field of a lead byte: its bits 4 to 7.
pub open spec fn lead_number(lead: u8) -> u8 {
    lead / 16
}

/// The class that a lead byte declares: context-specific where bit 3 is set.
pub open spec fn lead_class(lead: u8) -> TagClass {
    if (lead / 8) % 2 == 1 {
        TagClass::ContextSpecific
    } else {
        TagClass::Application
    }
}

/// The length/value/type field of a lead byte: its bits 0 to 2.
pub open spec fn lead_lvt(lead: u8) -> u8 {
    lead % 8
}

/// The tag number that a header starting with `s` declares, and what follows
/// it. A number field of 15 stands for a number in the next byte.
pub open spec fn spec_parse_number(s: Seq<u8>) -> Result<(Seq<u8>, u8), Error>
    recommends
        s.len() >= 1,
{
    if lead_number(s[0]) != 15 {
        Ok((s.skip(1), lead_number(s[0])))
    } else if s.len() < 2 {
        Err(Error::Length)
    } else {
        Ok((s.skip(2), s[1]))
    }
}

/// The length and form that the field `lvt` declares, where `s` follows the
/// tag number, and what follows the header. A field of 5 stands for a length
/// in the next byte, or in the two or four bytes after a 254 or a 255.
pub open spec fn spec_parse_length(lvt: u8, s: Seq<u8>) -> Result<(Seq<u8>, (u32, TagForm)), Error> {
    if lvt == 6 {
        Ok((s, (0u32, TagForm::Opening)))
    } else if lvt == 7 {
        Ok((s, (0u32, TagForm::Closing)))
    } else if lvt != 5 {
        Ok((s, (lvt as u32, TagForm::Primitive)))
    } else if s.len() < 1 {
        Err(Error::Length)
    } else if s[0] < 254 {
        Ok((s.skip(1), (s[0] as u32, TagForm::Primitive)))
    } else {
        match spec_parse_unsigned(s.skip(1), if s[0] == 254 { 2u32 } else { 4u32 }) {
            Ok((rest, length)) => Ok((rest, (length, TagForm::Primitive))),
            Err(e) => Err(e),
        }
    }
}

impl TagType {
    /// The data type that an application tag of the given number announces.
    pub open spec fn spec_from_number(number: u8) -> Option<TagType> {
        match number {
            0 => Some(TagType::Null),
            1 => Some(TagType::Boolean),
            2 => Some(TagType::UnsignedInt),
            3 => Some(TagType::SignedInt),
            4 => Some(TagType::Real),
            5 => Some(TagType::Double),
            6 => Some(TagType::OctetString),
            7 => Some(TagType::CharacterString),
            8 => Some(TagType::BitString),
            9 => Some(TagType::Enumerated),
            10 => Some(TagType::Date),
            11 => Some(TagType::Time),
            12 => Some(TagType::ObjectId),
            _ => None,
        }
    }

    /// The data type that an application tag of the given number announces;
    /// `None` for the numbers that announce none.
    #[verifier::when_used_as_spec(spec_from_number)]
    pub fn from_number(number: u8) -> (r: Option<TagType>)
        ensures
            r == TagType::spec_from_number(number),
    {
        match number {
            0 => Some(TagType::Null),
            1 => Some(TagType::Boolean),
            2 => Some(TagType::UnsignedInt),
            3 => Some(TagType::SignedInt),
            4 => Some(TagType::Real),
            5 => Some(TagType::Double),
            6 => Some(TagType::OctetString),
            7 => Some(TagType::CharacterString),
            8 => Some(TagType::BitString),
            9 => Some(TagType::Enumerated),
            10 => Some(TagType::Date),
            11 => Some(TagType::Time),
            12 => Some(TagType::ObjectId),
            _ => None,
        }
    }
}

impl Tag {
    /// An opening or closing tag declares no length.
    pub open spec fn wf(&self) -> bool {
        self.form != TagForm::Primitive ==> self.value == 0
    }

    /// The tag at the front of `s`, and what follows its header.
    pub open spec fn spec_parse(s: Seq<u8>) -> Result<(Seq<u8>, Tag), Error> {
        if s.len() < 1 {
            Err(Error::Length)
        } else {
            match spec_parse_number(s) {
                Err(e) => Err(e),
                Ok((after_number, number)) => match spec_parse_length(lead_lvt(s[0]), after_number) {
                    Err(e) => Err(e),
                    Ok((rest, (value, form))) => Ok(
                        (rest, Tag { number, class: lead_class(s[0]), value, form }),
                    ),
                },
            }
        }
    }

    /// The data type that the tag announces: that of its number for an
    /// application tag, none for a context-specific one.
    pub open spec fn spec_tag_type(&self) -> Option<TagType> {
        match self.class {
            TagClass::Application => TagType::spec_from_number(self.number),
            TagClass::ContextSpecific => None,
        }
    }

    /// The data type that the tag announces, if it announces one.
    #[verifier::when_used_as_spec(spec_tag_type)]
    pub fn tag_type(&self) -> (r: Option<TagType>)
        ensures
            r == self.spec_tag_type(),
    {
        match self.class {
            TagClass::Application => TagType::from_number(self.number),
            TagClass::ContextSpecific => None,
        }
    }

    /// Decodes the tag at the front of `bytes` and returns it with the bytes
    /// that follow its header. Fails with `Error::Length`, and only so, where
    /// `bytes` is empty or ends inside the header. A header takes at least
    /// one byte, so what is returned is shorter than `bytes`.
    pub fn parse(bytes: &[u8]) -> (r: Result<(&[u8], Tag), Error>)
        ensures
            decoded(r) == Tag::spec_parse(bytes@),
            r matches Ok((rest, tag)) ==> tag.wf() && rest@.len() < bytes@.len(),
    {
        proof {
            Tag::lemma_encode_of_parse(bytes@);
        }
        if bytes.len() < 1 {
            return Err(Error::Length);
        }
        let lead: u8 = bytes[0];
        let field: u8 = lead >> 4;
        let lvt: u8 = lead & 0x07;
        let class = if lead & 0x08 != 0 {
            TagClass::ContextSpecific
        } else {
            TagClass::Application
        };
        proof {
            assert(lead >> 4 == lead / 16) by (bit_vector);
            assert(lead & 0x07 == lead % 8) by (bit_vector);
            assert((lead & 0x08 != 0) == ((lead / 8) % 2 == 1)) by (bit_vector);
        }
        let mut at: usize = 1;
        let mut number: u8 = field;
        if field == 15 {
            if bytes.len() < 2 {
                return Err(Error::Length);
            }
            number = bytes[1];
            at = 2;
        }
        assert(spec_parse_number(bytes@) == Ok::<_, Error>((bytes@.skip(at as int), number)));
        let after_number = &bytes[at..bytes.len()];
        if lvt == 6 {
            return Ok((after_number, Tag { number, class, value: 0, form: TagForm::Opening }));
        }
        if lvt == 7 {
            return Ok((after_number, Tag { number, class, value: 0, form: TagForm::Closing }));
        }
        if lvt != 5 {
            return Ok(
                (after_number, Tag { number, class, value: lvt as u32, form: TagForm::Primitive }),
            );
        }
        if after_number.len() < 1 {
            return Err(Error::Length);
        }
        let first: u8 = after_number[0];
        let extended = &after_number[1..after_number.len()];
        if first < 254 {
            return Ok(
                (extended, Tag { number, class, value: first as u32, form: TagForm::Primitive }),
            );
        }
        let width: u32 = if first == 254 {
            2
        } else {
            4
        };
        match parse_unsigned(extended, width) {
            Ok((rest, value)) => Ok((rest, Tag { number, class, value, form: TagForm::Primitive })),
            Err(e) => Err(e),
        }
    }
}

// What follows models the writing of a header, which this crate leaves to
// others, and states that the decoder reads what such a writer writes.

/// The length/value/type field that declares `value` and `form`: 6 and 7
/// for an opening and a closing tag, the length itself up to 4, and 5 for a
/// longer one.
pub open spec fn spec_lvt(value: u32, form: TagForm) -> u8 {
    match form {
        TagForm::Opening => 6,
        TagForm::Closing => 7,
        TagForm::Primitive => if value <= 4 {
            value as u8
        } else {
            5
        },
    }
}

/// The bytes that declare a length which the lead byte cannot hold: one
/// byte for a length below 254, else a 254 and two bytes, or a 255 and four.
/// None where the lead byte holds the length or the form.
pub open spec fn spec_extended_length(value: u32, form: TagForm) -> Seq<u8> {
    if form != TagForm::Primitive || value <= 4 {
        Seq::<u8>::empty()
    } else if value < 254 {
        seq![value as u8]
    } else if value <= 0xFFFF {
        seq![254u8] + be_bytes(value as nat, 2)
    } else {
        seq![255u8] + be_bytes(value as nat, 4)
    }
}

/// The byte that declares a tag number which the lead byte cannot hold;
/// none for a number below 15.
pub open spec fn spec_extended_number(number: u8) -> Seq<u8> {
    if number < 15 {
        Seq::<u8>::empty()
    } else {
        seq![number]
    }
}

/// Decoding undoes encoding, for the length: the field and the bytes that
/// declare a length and a form, whatever follows them, decode to these.
pub proof fn lemma_parse_length_of_encode(value: u32, form: TagForm, rest: Seq<u8>)
    requires
        form != TagForm::Primitive ==> value == 0,
    ensures
        spec_parse_length(spec_lvt(value, form), spec_extended_length(value, form) + rest) == Ok::<
            _,
            Error,
        >((rest, (value, form))),
{
    let s = spec_extended_length(value, form) + rest;
    if form != TagForm::Primitive || value <= 4 {
        assert(s == rest);
    } else if value < 254 {
        assert(s[0] == value);
        assert(s.skip(1) == rest);
    } else {
        let width: u32 = if value <= 0xFFFF {
            2
        } else {
            4
        };
        let written = be_bytes(value as nat, width as nat);
        assert(s.skip(1) == written + rest);
        assert(pow(256, width as nat) > value) by {
            reveal_with_fuel(pow, 5);
        }
        lemma_parse_unsigned_of_be_bytes(value, width, rest);
    }
}

/// Decoding undoes encoding, for the number: a lead byte and the byte that
/// declares a tag number, whatever follows them, decode to that number.
pub proof fn lemma_parse_number_of_encode(lead: u8, number: u8, rest: Seq<u8>)
    requires
        lead_number(lead) == if number < 15 {
            number
        } else {
            15u8
        },
    ensures
        spec_parse_number(seq![lead] + spec_extended_number(number) + rest) == Ok::<_, Error>(
            (rest, number),
        ),
{
    let s = seq![lead] + spec_extended_number(number) + rest;
    assert(s[0] == lead);
    if number < 15 {
        assert(s.skip(1) == rest);
    } else {
        assert(s[1] == number);
        assert(s.skip(2) == rest);
    }
}

/// A lead byte is made of its three fields.
pub proof fn lemma_lead_of_fields(lead: u8)
    ensures
        lead == lead_number(lead) * 16 + (match lead_class(lead) {
            TagClass::Application => 0int,
            TagClass::ContextSpecific => 8int,
        }) + lead_lvt(lead),
        lead_number(lead) <= 15,
        lead_lvt(lead) <= 7,
{
}

/// Encoding undoes decoding, for the length: the bytes that were read are
/// never fewer than those that declare the length in the shortest way, and
/// where they are as few, they are those.
pub proof fn lemma_encode_of_parse_length(lvt: u8, s: Seq<u8>)
    requires
        lvt <= 7,
    ensures
        spec_parse_length(lvt, s) matches Ok((rest, (value, form))) ==> {
            let shortest = spec_extended_length(value, form);
            &&& form != TagForm::Primitive ==> value == 0
            &&& rest.len() <= s.len()
            &&& rest == s.skip(s.len() - rest.len())
            &&& shortest.len() + rest.len() <= s.len() <= 5 + rest.len()
            &&& shortest.len() + rest.len() == s.len() ==> spec_lvt(value, form) == lvt
                && shortest + rest == s
        },
{
    if let Ok((rest, (value, form))) = spec_parse_length(lvt, s) {
        lemma_be_bytes_len(value as nat, 2);
        lemma_be_bytes_len(value as nat, 4);
        if lvt != 5 {
            assert(rest == s.skip(0));
        } else if s[0] < 254 {
            if value > 4 {
                assert(seq![value as u8] + rest == s);
            }
        } else {
            let width: u32 = if s[0] == 254 {
                2
            } else {
                4
            };
            let read = s.skip(1).take(width as int);
            lemma_be_prefix_value(s.skip(1), width);
            lemma_be_bytes_of_be_value(read);
            assert(rest == s.skip(1 + width));
            assert(seq![s[0]] + read + rest == s);
        }
    }
}

/// Encoding undoes decoding, for the number: the bytes that were read are
/// never fewer than those that declare the number in the shortest way, and
/// where they are as few, they are those.
pub proof fn lemma_encode_of_parse_number(s: Seq<u8>)
    requires
        s.len() >= 1,
    ensures
        spec_parse_number(s) matches Ok((rest, number)) ==> {
            let shortest = spec_extended_number(number);
            &&& rest.len() < s.len()
            &&& rest == s.skip(s.len() - rest.len())
            &&& 1 + shortest.len() + rest.len() <= s.len() <= 2 + rest.len()
            &&& 1 + shortest.len() + rest.len() == s.len() ==> {
                &&& lead_number(s[0]) == if number < 15 {
                    number
                } else {
                    15u8
                }
                &&& seq![s[0]] + shortest + rest == s
            }
        },
{
    if let Ok((rest, number)) = spec_parse_number(s) {
        if lead_number(s[0]) != 15 {
            assert(seq![s[0]] + rest == s);
        } else if number >= 15 {
            assert(seq![s[0]] + seq![number] + rest == s);
        }
    }
}

impl Tag {
    /// The lead byte of the tag's shortest header.
    pub open spec fn spec_lead(&self) -> u8 {
        let number: int = if self.number < 15 {
            self.number as int
        } else {
            15
        };
        let class: int = match self.class {
            TagClass::Application => 0,
            TagClass::ContextSpecific => 8,
        };
        (number * 16 + class + spec_lvt(self.value, self.form)) as u8
    }

    /// The tag's shortest header: the lead byte, the number where the lead
    /// byte cannot hold it, and the length where the lead byte cannot hold it.
    pub open spec fn spec_encode(&self) -> Seq<u8> {
        seq![self.spec_lead()] + spec_extended_number(self.number) + spec_extended_length(
            self.value,
            self.form,
        )
    }

    /// The lead byte holds what it was made of.
    pub proof fn lemma_lead_fields(tag: Tag)
        ensures
            lead_number(tag.spec_lead()) == if tag.number < 15 {
                tag.number
            } else {
                15u8
            },
            lead_class(tag.spec_lead()) == tag.class,
            lead_lvt(tag.spec_lead()) == spec_lvt(tag.value, tag.form),
    {
    }

    /// Decoding undoes encoding: the shortest header of a well-formed tag,
    /// whatever follows it, decodes to that tag and to what follows.
    pub proof fn lemma_parse_of_encode(tag: Tag, rest: Seq<u8>)
        requires
            tag.wf(),
        ensures
            Tag::spec_parse(tag.spec_encode() + rest) == Ok::<_, Error>((rest, tag)),
    {
        let lead = tag.spec_lead();
        let number = spec_extended_number(tag.number);
        let length = spec_extended_length(tag.value, tag.form);
        let s = tag.spec_encode() + rest;
        assert(s == seq![lead] + number + (length + rest)) by {
            assert(s =~= seq![lead] + number + (length + rest));
        }
        assert(s[0] == lead);
        Tag::lemma_lead_fields(tag);
        lemma_parse_number_of_encode(lead, tag.number, length + rest);
        lemma_parse_length_of_encode(tag.value, tag.form, rest);
    }

    /// Encoding undoes decoding for every header of one byte: where the
    /// lead byte holds the tag number (its number field is below 15) and
    /// the length or the form (its length/value/type field is not 5),
    /// the header decodes to a tag whose shortest header is that byte.
    pub proof fn lemma_encode_of_parse_short(s: Seq<u8>)
        requires
            s.len() >= 1,
            lead_number(s[0]) <= 14,
            lead_lvt(s[0]) != 5,
        ensures
            Tag::spec_parse(s) matches Ok((rest, tag)) && {
                &&& tag.wf()
                &&& tag.number <= 14
                &&& tag.value <= 4
                &&& rest == s.skip(1)
                &&& tag.spec_encode() == seq![s[0]]
                &&& tag.spec_encode() + rest == s
            },
    {
        let (rest, tag) = Tag::spec_parse(s)->Ok_0;
        assert(tag.spec_lead() == s[0]);
        assert(tag.spec_encode() == seq![s[0]]);
        assert(seq![s[0]] + s.skip(1) == s);
    }

    /// A header is never shorter than the shortest header of its tag, and
    /// where it is as short, it is that header: encoding undoes decoding
    /// for every header in shortest form. A header takes from one to seven
    /// bytes, and what is handed back is what follows it.
    pub proof fn lemma_encode_of_parse(s: Seq<u8>)
        ensures
            Tag::spec_parse(s) matches Ok((rest, tag)) ==> {
                &&& tag.wf()
                &&& rest.len() < s.len()
                &&& rest == s.skip(s.len() - rest.len())
                &&& tag.spec_encode().len() + rest.len() <= s.len() <= 7 + rest.len()
                &&& tag.spec_encode().len() + rest.len() == s.len() ==> tag.spec_encode() + rest
                    == s
            },
    {
        if let Ok((rest, tag)) = Tag::spec_parse(s) {
            let (after_number, number) = spec_parse_number(s)->Ok_0;
            let shortest_number = spec_extended_number(number);
            let shortest_length = spec_extended_length(tag.value, tag.form);
            lemma_encode_of_parse_number(s);
            lemma_encode_of_parse_length(lead_lvt(s[0]), after_number);
            assert(rest == s.skip(s.len() - rest.len())) by {
                let at_number = s.len() - after_number.len();
                let at_length = after_number.len() - rest.len();
                assert(s.skip(at_number).skip(at_length) =~= s.skip(at_number + at_length));
            }
            if tag.spec_encode().len() + rest.len() == s.len() {
                lemma_lead_of_fields(s[0]);
                assert(tag.spec_lead() == s[0]);
                lemma_concat_associative(seq![s[0]] + shortest_number, shortest_length, rest);
            }
        }
    }

    /// The decoder looks at no byte behind the header: where it accepts
    /// `s`, it accepts `s` with anything appended, gives the same tag, and
    /// hands back what was appended behind what it handed back before.
    pub proof fn lemma_parse_extends(s: Seq<u8>, extra: Seq<u8>)
        ensures
            Tag::spec_parse(s) matches Ok((rest, tag)) ==> Tag::spec_parse(s + extra) == Ok::<
                _,
                Error,
            >((rest + extra, tag)),
    {
        if let Ok((rest, tag)) = Tag::spec_parse(s) {
            let (after_number, number) = spec_parse_number(s)->Ok_0;
            let longer = s + extra;
            assert(longer[0] == s[0]);
            assert(longer.skip(1) == s.skip(1) + extra);
            if lead_number(s[0]) == 15 {
                assert(longer[1] == s[1]);
                assert(longer.skip(2) == s.skip(2) + extra);
            }
            assert(spec_parse_number(longer) == Ok::<_, Error>((after_number + extra, number)));
            if lead_lvt(s[0]) == 5 {
                assert((after_number + extra)[0] == after_number[0]);
                assert((after_number + extra).skip(1) == after_number.skip(1) + extra);
                if after_number[0] >= 254 {
                    let width: u32 = if after_number[0] == 254 {
                        2
                    } else {
                        4
                    };
                    lemma_parse_unsigned_extends(after_number.skip(1), width, extra);
                }
            }
        }
    }
}

} // verus!
