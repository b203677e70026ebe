//! What a failed constraint reports: a static text, or a payload of values
//! that a 64-bit selector describes.

use acvm::acir::circuit::ErrorSelector;
use crate::ids::{clone_values, ValueId};
use fxhash::FxHasher64;
use std::hash::Hasher;
use vstd::prelude::*;

verus! {

/// `acvm::acir::circuit::ErrorSelector`: 64 bits that name the type of an
/// error payload.
#[verifier::external_type_specification]
#[verifier::external_body]
pub struct ExErrorSelector(ErrorSelector);

/// The 64 bits that a selector holds: what it was made from, and what its
/// `as_u64` hands out.
pub uninterp spec fn selector_bits(selector: ErrorSelector) -> u64;

/// `ErrorSelector::new`: the selector that holds `integer`.
pub assume_specification[ ErrorSelector::new ](integer: u64) -> (selector: ErrorSelector)
    ensures
        selector_bits(selector) == integer,
;

/// `fxhash::FxHasher64`: a hasher whose whole state is one 64-bit word.
#[verifier::external_type_specification]
#[verifier::external_body]
pub struct ExFxHasher64(FxHasher64);

/// The word that a hasher holds.
pub uninterp spec fn hasher_state(hasher: FxHasher64) -> u64;

/// The multiplier of the hash.
pub const FX_SEED: u64 = 0x517cc1b727220a95;

/// One step of the hash: rotate the state left by five bits, mix the word
/// in with exclusive or, multiply by the seed, all in 64 bits.
pub open spec fn fx_step(state: u64, word: u64) -> u64 {
    (((state << 5) | (state >> 59)) ^ word).wrapping_mul(FX_SEED)
}

/// The hash of a sequence of words: [`fx_step`] over each in turn, from 0.
pub open spec fn fx_digest(words: Seq<u64>) -> u64
    decreases words.len(),
{
    if words.len() == 0 {
        0
    } else {
        fx_step(fx_digest(words.drop_last()), words.last())
    }
}

/// `FxHasher64::default`: a hasher in state 0.
#[verifier::external_body]
fn hasher_new() -> (hasher: FxHasher64)
    ensures
        hasher_state(hasher) == 0,
{
    FxHasher64::default()
}

/// `FxHasher64::write_u64`: one [`fx_step`] with `word`.
#[verifier::external_body]
fn hasher_write(hasher: &mut FxHasher64, word: u64)
    ensures
        hasher_state(*final(hasher)) == fx_step(hasher_state(*old(hasher)), word),
{
    hasher.write_u64(word)
}

/// `FxHasher64::finish`: the state as it stands.
#[verifier::external_body]
fn hasher_finish(hasher: &FxHasher64) -> (digest: u64)
    ensures
        digest == hasher_state(*hasher),
{
    hasher.finish()
}

/// The hash of `words`.
pub fn hash_words(words: &Vec<u64>) -> (digest: u64)
    ensures
        digest == fx_digest(words@),
{
    let mut hasher = hasher_new();
    let mut done: usize = 0;
    while done < words.len()
        invariant
            done <= words.len(),
            hasher_state(hasher) == fx_digest(words@.take(done as int)),
        decreases words.len() - done,
    {
        hasher_write(&mut hasher, words[done]);
        proof {
            assert(words@.take(done + 1).drop_last() == words@.take(done as int));
        }
        done += 1;
    }
    proof {
        assert(words@.take(done as int) == words@);
    }
    hasher_finish(&hasher)
}

/// Eight bytes as one word, the first byte lowest.
pub open spec fn word_of_eight(bytes: Seq<u8>) -> u64 {
    (bytes[0] + bytes[1] * 0x100 + bytes[2] * 0x1_0000 + bytes[3] * 0x100_0000 + bytes[4]
        * 0x1_0000_0000 + bytes[5] * 0x100_0000_0000 + bytes[6] * 0x1_0000_0000_0000 + bytes[7]
        * 0x100_0000_0000_0000) as u64
}

/// Four bytes as one word, the first byte lowest.
pub open spec fn word_of_four(bytes: Seq<u8>) -> u64 {
    (bytes[0] + bytes[1] * 0x100 + bytes[2] * 0x1_0000 + bytes[3] * 0x100_0000) as u64
}

/// The words that a run of bytes feeds the hash: whole groups of eight
/// first, then one group of four if four or more are left, then each
/// byte by itself.
pub open spec fn byte_words(bytes: Seq<u8>) -> Seq<u64>
    decreases bytes.len(),
{
    if bytes.len() >= 8 {
        seq![word_of_eight(bytes)] + byte_words(bytes.skip(8))
    } else if bytes.len() >= 4 {
        seq![word_of_four(bytes)] + byte_words(bytes.skip(4))
    } else if bytes.len() >= 1 {
        seq![bytes[0] as u64] + byte_words(bytes.skip(1))
    } else {
        Seq::empty()
    }
}

/// Appends to `words` the words that `bytes` feeds the hash.
fn push_byte_words(words: &mut Vec<u64>, bytes: &[u8])
    ensures
        final(words)@ == old(words)@ + byte_words(bytes@),
{
    let ghost before = words@;
    let length = bytes.len();
    let mut at: usize = 0;
    proof {
        assert(bytes@.skip(0) == bytes@);
    }
    while at < length
        invariant
            at <= length,
            length == bytes@.len(),
            words@ + byte_words(bytes@.skip(at as int)) == before + byte_words(bytes@),
        decreases length - at,
    {
        let ghost rest = bytes@.skip(at as int);
        let step: usize;
        let word: u64;
        if length - at >= 8 {
            word = bytes[at] as u64 + (bytes[at + 1] as u64) * 0x100 + (bytes[at + 2] as u64)
                * 0x1_0000 + (bytes[at + 3] as u64) * 0x100_0000 + (bytes[at + 4] as u64)
                * 0x1_0000_0000 + (bytes[at + 5] as u64) * 0x100_0000_0000 + (bytes[at
                + 6] as u64) * 0x1_0000_0000_0000 + (bytes[at + 7] as u64) * 0x100_0000_0000_0000;
            step = 8;
        } else if length - at >= 4 {
            word = bytes[at] as u64 + (bytes[at + 1] as u64) * 0x100 + (bytes[at + 2] as u64)
                * 0x1_0000 + (bytes[at + 3] as u64) * 0x100_0000;
            step = 4;
        } else {
            word = bytes[at] as u64;
            step = 1;
        }
        proof {
            assert(rest.skip(step as int) == bytes@.skip(at + step));
            assert(byte_words(rest) == seq![word] + byte_words(rest.skip(step as int)));
            assert(words@.push(word) + byte_words(rest.skip(step as int)) == words@ + byte_words(
                rest,
            ));
        }
        words.push(word);
        at += step;
    }
    proof {
        assert(bytes@.skip(at as int).len() == 0);
        assert(words@ + byte_words(bytes@.skip(at as int)) == words@);
    }
}

/// The words that `bytes` feeds the hash.
pub fn byte_words_of(bytes: &[u8]) -> (words: Vec<u64>)
    ensures
        words@ == byte_words(bytes@),
{
    let mut words: Vec<u64> = Vec::new();
    push_byte_words(&mut words, bytes);
    assert(Seq::<u64>::empty() + byte_words(bytes@) == byte_words(bytes@));
    words
}

/// A type of the front end. The instruction layer reads nothing of it but
/// the words that its structure feeds a hasher, so that is what it holds.
#[derive(Debug, PartialEq, Eq, Hash)]
pub struct HirType {
    pub structure: Vec<u64>,
}

impl View for HirType {
    type V = Seq<u64>;

    open spec fn view(&self) -> Seq<u64> {
        self.structure@
    }
}

/// The type of an error: a text known at compile time, or a value of a
/// front-end type.
#[derive(Debug, PartialEq, Eq, Hash)]
pub enum ErrorType {
    String(String),
    Dynamic(HirType),
}

/// An [`ErrorType`] as a mathematical value.
pub enum ErrorTypeView {
    String(Seq<char>),
    Dynamic(Seq<u64>),
}

impl ErrorTypeView {
    /// The words that the error type feeds the hash: the number of its
    /// variant, then the text's bytes and a closing `0xff`, or the words of
    /// the front-end type.
    pub open spec fn hash_words(self) -> Seq<u64> {
        match self {
            ErrorTypeView::String(text) => seq![0u64] + byte_words(vstd::utf8::encode_utf8(text))
                + seq![0xffu64],
            ErrorTypeView::Dynamic(structure) => seq![1u64] + structure,
        }
    }

    /// The bits of the error type's selector.
    pub open spec fn selector(self) -> u64 {
        fx_digest(self.hash_words())
    }
}

impl View for ErrorType {
    type V = ErrorTypeView;

    open spec fn view(&self) -> ErrorTypeView {
        match self {
            ErrorType::String(text) => ErrorTypeView::String(text@),
            ErrorType::Dynamic(typ) => ErrorTypeView::Dynamic(typ@),
        }
    }
}

impl Clone for HirType {
    fn clone(&self) -> (copy: HirType)
        ensures
            copy@ == self@,
    {
        let mut structure: Vec<u64> = Vec::new();
        let mut at: usize = 0;
        while at < self.structure.len()
            invariant
                at <= self.structure.len(),
                structure@ == self.structure@.take(at as int),
            decreases self.structure.len() - at,
        {
            structure.push(self.structure[at]);
            at += 1;
        }
        proof {
            assert(self.structure@.take(at as int) == self.structure@);
        }
        HirType { structure }
    }
}

impl Clone for ErrorType {
    fn clone(&self) -> (copy: ErrorType)
        ensures
            copy@ == self@,
    {
        match self {
            ErrorType::String(text) => ErrorType::String(text.clone()),
            ErrorType::Dynamic(typ) => ErrorType::Dynamic(typ.clone()),
        }
    }
}

impl ErrorType {
    /// The selector of this error type: the hash of its contents. It is the
    /// same on every machine and in every run.
    pub fn selector(&self) -> (selector: ErrorSelector)
        ensures
            selector_bits(selector) == self@.selector(),
    {
        let mut words: Vec<u64> = Vec::new();
        match self {
            ErrorType::String(text) => {
                words.push(0);
                let bytes = text.as_str().as_bytes();
                push_byte_words(&mut words, bytes);
                words.push(0xff);
                proof {
                    assert(bytes@ == vstd::utf8::encode_utf8(text@));
                    assert(words@ == self@.hash_words());
                }
            },
            ErrorType::Dynamic(typ) => {
                words.push(1);
                let mut at: usize = 0;
                while at < typ.structure.len()
                    invariant
                        at <= typ.structure.len(),
                        words@ == seq![1u64] + typ.structure@.take(at as int),
                    decreases typ.structure.len() - at,
                {
                    words.push(typ.structure[at]);
                    at += 1;
                }
                proof {
                    assert(typ.structure@.take(at as int) == typ.structure@);
                    assert(words@ == self@.hash_words());
                }
            },
        }
        ErrorSelector::new(hash_words(&words))
    }
}

/// Equal error types have equal selectors.
pub proof fn lemma_selector_stable(a: ErrorTypeView, b: ErrorTypeView)
    requires
        a == b,
    ensures
        a.selector() == b.selector(),
{
}

/// The error that a failed constraint reports.
#[derive(Debug, PartialEq, Eq, Hash)]
pub enum ConstrainError {
    /// A text that never becomes circuit data.
    StaticString(String),
    /// Values that the program handles as data: the selector of their type,
    /// whether they spell a string, and the values.
    Dynamic(ErrorSelector, bool, Vec<ValueId>),
}

/// A [`ConstrainError`] as a mathematical value.
pub enum ConstrainErrorView {
    StaticString(Seq<char>),
    Dynamic(ErrorSelector, bool, Seq<ValueId>),
}

impl View for ConstrainError {
    type V = ConstrainErrorView;

    open spec fn view(&self) -> ConstrainErrorView {
        match self {
            ConstrainError::StaticString(text) => ConstrainErrorView::StaticString(text@),
            ConstrainError::Dynamic(selector, is_string, values) => ConstrainErrorView::Dynamic(
                *selector,
                *is_string,
                values@,
            ),
        }
    }
}

impl ConstrainErrorView {
    /// The values of the payload, in order: none for a static text.
    pub open spec fn values(self) -> Seq<ValueId> {
        match self {
            ConstrainErrorView::StaticString(_) => Seq::empty(),
            ConstrainErrorView::Dynamic(_, _, values) => values,
        }
    }

    /// The same error over other payload values.
    pub open spec fn with_values(self, values: Seq<ValueId>) -> ConstrainErrorView {
        match self {
            ConstrainErrorView::StaticString(text) => ConstrainErrorView::StaticString(text),
            ConstrainErrorView::Dynamic(selector, is_string, _) => ConstrainErrorView::Dynamic(
                selector,
                is_string,
                values,
            ),
        }
    }
}

impl Clone for ConstrainError {
    fn clone(&self) -> (copy: ConstrainError)
        ensures
            copy@ == self@,
    {
        match self {
            ConstrainError::StaticString(text) => ConstrainError::StaticString(text.clone()),
            ConstrainError::Dynamic(selector, is_string, values) => ConstrainError::Dynamic(
                *selector,
                *is_string,
                clone_values(values),
            ),
        }
    }
}

impl From<String> for ConstrainError {
    /// The error that reports `text`.
    fn from(text: String) -> (error: ConstrainError)
        ensures
            error == ConstrainError::StaticString(text),
    {
        ConstrainError::StaticString(text)
    }
}

impl vstd::std_specs::convert::FromSpecImpl<String> for ConstrainError {
    open spec fn obeys_from_spec() -> bool {
        true
    }

    open spec fn from_spec(text: String) -> ConstrainError {
        ConstrainError::StaticString(text)
    }
}

impl From<String> for Box<ConstrainError> {
    /// The error that reports `text`, in a box.
    fn from(text: String) -> (error: Box<ConstrainError>)
        ensures
            *error == ConstrainError::StaticString(text),
    {
        Box::new(ConstrainError::StaticString(text))
    }
}

impl vstd::std_specs::convert::FromSpecImpl<String> for Box<ConstrainError> {
    open spec fn obeys_from_spec() -> bool {
        true
    }

    open spec fn from_spec(text: String) -> Box<ConstrainError> {
        Box::new(ConstrainError::StaticString(text))
    }
}

} // verus!
