//! The built-in operations that the IR knows by name.

use acvm::acir::BlackBoxFunc;
use vstd::prelude::*;

verus! {

/// The order of the digits when a value is split into bits or into digits
/// of a radix.
#[derive(Clone, Copy, PartialEq, Eq, Structural, Hash, Debug)]
pub enum Endian {
    Big,
    Little,
}

/// `acvm::acir::BlackBoxFunc`: the operations that the proving back-end
/// implements itself. Verus reads the variants from the outside crate.
#[verifier::external_type_specification]
pub struct ExBlackBoxFunc(BlackBoxFunc);

/// The name under which the back-end knows a black-box function.
pub open spec fn black_box_name(func: BlackBoxFunc) -> Seq<char> {
    match func {
        BlackBoxFunc::AES128Encrypt => "aes128_encrypt"@,
        BlackBoxFunc::SHA256 => "sha256"@,
        BlackBoxFunc::SchnorrVerify => "schnorr_verify"@,
        BlackBoxFunc::Blake2s => "blake2s"@,
        BlackBoxFunc::Blake3 => "blake3"@,
        BlackBoxFunc::PedersenCommitment => "pedersen_commitment"@,
        BlackBoxFunc::PedersenHash => "pedersen_hash"@,
        BlackBoxFunc::EcdsaSecp256k1 => "ecdsa_secp256k1"@,
        BlackBoxFunc::MultiScalarMul => "multi_scalar_mul"@,
        BlackBoxFunc::EmbeddedCurveAdd => "embedded_curve_add"@,
        BlackBoxFunc::AND => "and"@,
        BlackBoxFunc::XOR => "xor"@,
        BlackBoxFunc::RANGE => "range"@,
        BlackBoxFunc::Keccak256 => "keccak256"@,
        BlackBoxFunc::Keccakf1600 => "keccakf1600"@,
        BlackBoxFunc::RecursiveAggregation => "recursive_aggregation"@,
        BlackBoxFunc::EcdsaSecp256r1 => "ecdsa_secp256r1"@,
        BlackBoxFunc::BigIntAdd => "bigint_add"@,
        BlackBoxFunc::BigIntSub => "bigint_sub"@,
        BlackBoxFunc::BigIntMul => "bigint_mul"@,
        BlackBoxFunc::BigIntDiv => "bigint_div"@,
        BlackBoxFunc::BigIntFromLeBytes => "bigint_from_le_bytes"@,
        BlackBoxFunc::BigIntToLeBytes => "bigint_to_le_bytes"@,
        BlackBoxFunc::Poseidon2Permutation => "poseidon2_permutation"@,
        BlackBoxFunc::Sha256Compression => "sha256_compression"@,
    }
}

/// `BlackBoxFunc::name`: the outside crate's table of names, which
/// [`black_box_name`] writes out line for line.
pub assume_specification[ BlackBoxFunc::name ](func: &BlackBoxFunc) -> (name: &'static str)
    ensures
        name@ == black_box_name(*func),
;

/// `BlackBoxFunc::lookup`: the function whose name is `op_name`, if there
/// is one. The outside crate matches `op_name` against the same table.
pub assume_specification[ BlackBoxFunc::lookup ](op_name: &str) -> (found: Option<BlackBoxFunc>)
    ensures
        match found {
            Some(func) => black_box_name(func) == op_name@,
            None => forall|func: BlackBoxFunc| black_box_name(func) != op_name@,
        },
;

/// `str`'s own `==`: whether two strings hold the same characters.
#[verifier::external_body]
fn str_eq(a: &str, b: &str) -> (same: bool)
    ensures
        same == (a@ == b@),
{
    a == b
}

/// A built-in operation: one that the IR handles itself, or a black-box
/// function handed through to the back-end.
#[derive(Clone, Copy, PartialEq, Eq, Hash, Debug)]
pub enum Intrinsic {
    ArrayLen,
    ArrayAsStrUnchecked,
    AsSlice,
    AssertConstant,
    StaticAssert,
    SlicePushBack,
    SlicePushFront,
    SlicePopBack,
    SlicePopFront,
    SliceInsert,
    SliceRemove,
    ApplyRangeConstraint,
    StrAsBytes,
    ToBits(Endian),
    ToRadix(Endian),
    BlackBox(BlackBoxFunc),
    FromField,
    AsField,
    AsWitness,
    IsUnconstrained,
    DerivePedersenGenerators,
    FieldLessThan,
}

/// What tells two names apart: the length, the last two characters and the
/// fourth (the last, in a name of three).
pub open spec fn fingerprint(name: Seq<char>) -> (nat, char, char, char) {
    (
        name.len(),
        name[name.len() - 1],
        name[name.len() - 2],
        name[if name.len() > 3 { 3 } else { name.len() - 1 }],
    )
}

/// The fingerprint of a black-box function's name.
pub open spec fn black_box_fingerprint(func: BlackBoxFunc) -> (nat, char, char, char) {
    match func {
        BlackBoxFunc::AES128Encrypt => (14, 't', 'p', '1'),
        BlackBoxFunc::SHA256 => (6, '6', '5', '2'),
        BlackBoxFunc::SchnorrVerify => (14, 'y', 'f', 'n'),
        BlackBoxFunc::Blake2s => (7, 's', '2', 'k'),
        BlackBoxFunc::Blake3 => (6, '3', 'e', 'k'),
        BlackBoxFunc::PedersenCommitment => (19, 't', 'n', 'e'),
        BlackBoxFunc::PedersenHash => (13, 'h', 's', 'e'),
        BlackBoxFunc::EcdsaSecp256k1 => (15, '1', 'k', 's'),
        BlackBoxFunc::MultiScalarMul => (16, 'l', 'u', 't'),
        BlackBoxFunc::EmbeddedCurveAdd => (18, 'd', 'd', 'e'),
        BlackBoxFunc::AND => (3, 'd', 'n', 'd'),
        BlackBoxFunc::XOR => (3, 'r', 'o', 'r'),
        BlackBoxFunc::RANGE => (5, 'e', 'g', 'g'),
        BlackBoxFunc::Keccak256 => (9, '6', '5', 'c'),
        BlackBoxFunc::Keccakf1600 => (11, '0', '0', 'c'),
        BlackBoxFunc::RecursiveAggregation => (21, 'n', 'o', 'u'),
        BlackBoxFunc::EcdsaSecp256r1 => (15, '1', 'r', 's'),
        BlackBoxFunc::BigIntAdd => (10, 'd', 'd', 'i'),
        BlackBoxFunc::BigIntSub => (10, 'b', 'u', 'i'),
        BlackBoxFunc::BigIntMul => (10, 'l', 'u', 'i'),
        BlackBoxFunc::BigIntDiv => (10, 'v', 'i', 'i'),
        BlackBoxFunc::BigIntFromLeBytes => (20, 's', 'e', 'i'),
        BlackBoxFunc::BigIntToLeBytes => (18, 's', 'e', 'i'),
        BlackBoxFunc::Poseidon2Permutation => (21, 'n', 'o', 'e'),
        BlackBoxFunc::Sha256Compression => (18, 'n', 'o', '2'),
    }
}

/// [`black_box_fingerprint`] is the fingerprint of [`black_box_name`].
pub proof fn lemma_black_box_fingerprint(func: BlackBoxFunc)
    ensures
        fingerprint(black_box_name(func)) == black_box_fingerprint(func),
{
    reveal_strlit("aes128_encrypt");
    reveal_strlit("sha256");
    reveal_strlit("schnorr_verify");
    reveal_strlit("blake2s");
    reveal_strlit("blake3");
    reveal_strlit("pedersen_commitment");
    reveal_strlit("pedersen_hash");
    reveal_strlit("ecdsa_secp256k1");
    reveal_strlit("multi_scalar_mul");
    reveal_strlit("embedded_curve_add");
    reveal_strlit("and");
    reveal_strlit("xor");
    reveal_strlit("range");
    reveal_strlit("keccak256");
    reveal_strlit("keccakf1600");
    reveal_strlit("recursive_aggregation");
    reveal_strlit("ecdsa_secp256r1");
    reveal_strlit("bigint_add");
    reveal_strlit("bigint_sub");
    reveal_strlit("bigint_mul");
    reveal_strlit("bigint_div");
    reveal_strlit("bigint_from_le_bytes");
    reveal_strlit("bigint_to_le_bytes");
    reveal_strlit("poseidon2_permutation");
    reveal_strlit("sha256_compression");
}

impl Intrinsic {
    /// The name that the source language gives the intrinsic.
    pub open spec fn display(self) -> Seq<char> {
        match self {
            Intrinsic::ArrayLen => "array_len"@,
            Intrinsic::ArrayAsStrUnchecked => "array_as_str_unchecked"@,
            Intrinsic::AsSlice => "as_slice"@,
            Intrinsic::AssertConstant => "assert_constant"@,
            Intrinsic::StaticAssert => "static_assert"@,
            Intrinsic::SlicePushBack => "slice_push_back"@,
            Intrinsic::SlicePushFront => "slice_push_front"@,
            Intrinsic::SlicePopBack => "slice_pop_back"@,
            Intrinsic::SlicePopFront => "slice_pop_front"@,
            Intrinsic::SliceInsert => "slice_insert"@,
            Intrinsic::SliceRemove => "slice_remove"@,
            Intrinsic::StrAsBytes => "str_as_bytes"@,
            Intrinsic::ApplyRangeConstraint => "apply_range_constraint"@,
            Intrinsic::ToBits(Endian::Big) => "to_be_bits"@,
            Intrinsic::ToBits(Endian::Little) => "to_le_bits"@,
            Intrinsic::ToRadix(Endian::Big) => "to_be_radix"@,
            Intrinsic::ToRadix(Endian::Little) => "to_le_radix"@,
            Intrinsic::FromField => "from_field"@,
            Intrinsic::AsField => "as_field"@,
            Intrinsic::AsWitness => "as_witness"@,
            Intrinsic::IsUnconstrained => "is_unconstrained"@,
            Intrinsic::DerivePedersenGenerators => "derive_pedersen_generators"@,
            Intrinsic::FieldLessThan => "field_less_than"@,
            Intrinsic::BlackBox(func) => black_box_name(func),
        }
    }

    /// The fingerprint of the intrinsic's name.
    pub open spec fn display_fingerprint(self) -> (nat, char, char, char) {
        match self {
            Intrinsic::ArrayLen => (9, 'n', 'e', 'a'),
            Intrinsic::ArrayAsStrUnchecked => (22, 'd', 'e', 'a'),
            Intrinsic::AsSlice => (8, 'e', 'c', 's'),
            Intrinsic::AssertConstant => (15, 't', 'n', 'e'),
            Intrinsic::StaticAssert => (13, 't', 'r', 't'),
            Intrinsic::SlicePushBack => (15, 'k', 'c', 'c'),
            Intrinsic::SlicePushFront => (16, 't', 'n', 'c'),
            Intrinsic::SlicePopBack => (14, 'k', 'c', 'c'),
            Intrinsic::SlicePopFront => (15, 't', 'n', 'c'),
            Intrinsic::SliceInsert => (12, 't', 'r', 'c'),
            Intrinsic::SliceRemove => (12, 'e', 'v', 'c'),
            Intrinsic::StrAsBytes => (12, 's', 'e', '_'),
            Intrinsic::ApplyRangeConstraint => (22, 't', 'n', 'l'),
            Intrinsic::ToBits(Endian::Big) => (10, 's', 't', 'b'),
            Intrinsic::ToBits(Endian::Little) => (10, 's', 't', 'l'),
            Intrinsic::ToRadix(Endian::Big) => (11, 'x', 'i', 'b'),
            Intrinsic::ToRadix(Endian::Little) => (11, 'x', 'i', 'l'),
            Intrinsic::FromField => (10, 'd', 'l', 'm'),
            Intrinsic::AsField => (8, 'd', 'l', 'f'),
            Intrinsic::AsWitness => (10, 's', 's', 'w'),
            Intrinsic::IsUnconstrained => (16, 'd', 'e', 'u'),
            Intrinsic::DerivePedersenGenerators => (26, 's', 'r', 'i'),
            Intrinsic::FieldLessThan => (15, 'n', 'a', 'l'),
            Intrinsic::BlackBox(func) => black_box_fingerprint(func),
        }
    }

    /// [`Self::display_fingerprint`] is the fingerprint of [`Self::display`].
    pub proof fn lemma_display_fingerprint(self)
        ensures
            fingerprint(self.display()) == self.display_fingerprint(),
    {
        reveal_strlit("array_len");
        reveal_strlit("array_as_str_unchecked");
        reveal_strlit("as_slice");
        reveal_strlit("assert_constant");
        reveal_strlit("static_assert");
        reveal_strlit("slice_push_back");
        reveal_strlit("slice_push_front");
        reveal_strlit("slice_pop_back");
        reveal_strlit("slice_pop_front");
        reveal_strlit("slice_insert");
        reveal_strlit("slice_remove");
        reveal_strlit("str_as_bytes");
        reveal_strlit("apply_range_constraint");
        reveal_strlit("to_be_bits");
        reveal_strlit("to_le_bits");
        reveal_strlit("to_be_radix");
        reveal_strlit("to_le_radix");
        reveal_strlit("from_field");
        reveal_strlit("as_field");
        reveal_strlit("as_witness");
        reveal_strlit("is_unconstrained");
        reveal_strlit("derive_pedersen_generators");
        reveal_strlit("field_less_than");
        if let Intrinsic::BlackBox(func) = self {
            lemma_black_box_fingerprint(func);
        }
    }

    /// No two intrinsics share a name.
    pub proof fn lemma_display_injective(self, other: Intrinsic)
        requires
            self.display() == other.display(),
        ensures
            self == other,
    {
        self.lemma_display_fingerprint();
        other.lemma_display_fingerprint();
    }

    /// Whether the intrinsic may fail, constrain the witness or depend on
    /// its context: then a call of it cannot be dropped or merged freely.
    pub open spec fn side_effects(&self) -> bool {
        match self {
            Intrinsic::AssertConstant
            | Intrinsic::StaticAssert
            | Intrinsic::ApplyRangeConstraint
            | Intrinsic::AsWitness => true,
            Intrinsic::ToBits(_) | Intrinsic::ToRadix(_) => true,
            Intrinsic::SlicePopBack | Intrinsic::SlicePopFront | Intrinsic::SliceRemove => true,
            Intrinsic::BlackBox(func) => func is RecursiveAggregation || func is MultiScalarMul
                || func is EmbeddedCurveAdd,
            _ => false,
        }
    }

    /// What [`Self::lookup`] owes for `name`: the intrinsic of that name,
    /// and nothing where no intrinsic has it.
    pub open spec fn found_by_name(name: Seq<char>, found: Option<Intrinsic>) -> bool {
        match found {
            Some(intrinsic) => intrinsic.display() == name,
            None => forall|intrinsic: Intrinsic| intrinsic.display() != name,
        }
    }

    /// Looking an intrinsic up by its own name finds that intrinsic.
    pub proof fn lemma_lookup_round_trip(self, found: Option<Intrinsic>)
        requires
            Self::found_by_name(self.display(), found),
        ensures
            found == Some(self),
    {
        match found {
            Some(intrinsic) => {
                intrinsic.lemma_display_injective(self);
            },
            None => {},
        }
    }

    #[verifier::when_used_as_spec(side_effects)]
    pub fn has_side_effects(&self) -> (effects: bool)
        ensures
            effects == self.side_effects(),
    {
        match self {
            Intrinsic::AssertConstant
            | Intrinsic::StaticAssert
            | Intrinsic::ApplyRangeConstraint
            | Intrinsic::AsWitness => true,
            // These constrain the input to fit into the given number of limbs.
            Intrinsic::ToBits(_) | Intrinsic::ToRadix(_) => true,
            // These fail on an empty slice.
            Intrinsic::SlicePopBack | Intrinsic::SlicePopFront | Intrinsic::SliceRemove => true,
            Intrinsic::ArrayLen
            | Intrinsic::ArrayAsStrUnchecked
            | Intrinsic::AsSlice
            | Intrinsic::SlicePushBack
            | Intrinsic::SlicePushFront
            | Intrinsic::SliceInsert
            | Intrinsic::StrAsBytes
            | Intrinsic::FromField
            | Intrinsic::AsField
            | Intrinsic::IsUnconstrained
            | Intrinsic::DerivePedersenGenerators
            | Intrinsic::FieldLessThan => false,
            Intrinsic::BlackBox(func) => match func {
                BlackBoxFunc::RecursiveAggregation
                | BlackBoxFunc::MultiScalarMul
                | BlackBoxFunc::EmbeddedCurveAdd => true,
                _ => false,
            },
        }
    }

    /// The intrinsic's name, as [`Self::lookup`] reads it.
    pub fn to_string(&self) -> (name: String)
        ensures
            name@ == self.display(),
    {
        let name: &str = match self {
            Intrinsic::ArrayLen => "array_len",
            Intrinsic::ArrayAsStrUnchecked => "array_as_str_unchecked",
            Intrinsic::AsSlice => "as_slice",
            Intrinsic::AssertConstant => "assert_constant",
            Intrinsic::StaticAssert => "static_assert",
            Intrinsic::SlicePushBack => "slice_push_back",
            Intrinsic::SlicePushFront => "slice_push_front",
            Intrinsic::SlicePopBack => "slice_pop_back",
            Intrinsic::SlicePopFront => "slice_pop_front",
            Intrinsic::SliceInsert => "slice_insert",
            Intrinsic::SliceRemove => "slice_remove",
            Intrinsic::StrAsBytes => "str_as_bytes",
            Intrinsic::ApplyRangeConstraint => "apply_range_constraint",
            Intrinsic::ToBits(Endian::Big) => "to_be_bits",
            Intrinsic::ToBits(Endian::Little) => "to_le_bits",
            Intrinsic::ToRadix(Endian::Big) => "to_be_radix",
            Intrinsic::ToRadix(Endian::Little) => "to_le_radix",
            Intrinsic::FromField => "from_field",
            Intrinsic::AsField => "as_field",
            Intrinsic::AsWitness => "as_witness",
            Intrinsic::IsUnconstrained => "is_unconstrained",
            Intrinsic::DerivePedersenGenerators => "derive_pedersen_generators",
            Intrinsic::FieldLessThan => "field_less_than",
            Intrinsic::BlackBox(func) => func.name(),
        };
        name.to_owned()
    }

    /// The intrinsic called `name`, if there is one.
    pub fn lookup(name: &str) -> (found: Option<Intrinsic>)
        ensures
            Self::found_by_name(name@, found),
    {
        if str_eq(name, "array_len") {
            Some(Intrinsic::ArrayLen)
        } else if str_eq(name, "array_as_str_unchecked") {
            Some(Intrinsic::ArrayAsStrUnchecked)
        } else if str_eq(name, "as_slice") {
            Some(Intrinsic::AsSlice)
        } else if str_eq(name, "assert_constant") {
            Some(Intrinsic::AssertConstant)
        } else if str_eq(name, "static_assert") {
            Some(Intrinsic::StaticAssert)
        } else if str_eq(name, "slice_push_back") {
            Some(Intrinsic::SlicePushBack)
        } else if str_eq(name, "slice_push_front") {
            Some(Intrinsic::SlicePushFront)
        } else if str_eq(name, "slice_pop_back") {
            Some(Intrinsic::SlicePopBack)
        } else if str_eq(name, "slice_pop_front") {
            Some(Intrinsic::SlicePopFront)
        } else if str_eq(name, "slice_insert") {
            Some(Intrinsic::SliceInsert)
        } else if str_eq(name, "slice_remove") {
            Some(Intrinsic::SliceRemove)
        } else if str_eq(name, "str_as_bytes") {
            Some(Intrinsic::StrAsBytes)
        } else if str_eq(name, "apply_range_constraint") {
            Some(Intrinsic::ApplyRangeConstraint)
        } else if str_eq(name, "to_be_bits") {
            Some(Intrinsic::ToBits(Endian::Big))
        } else if str_eq(name, "to_le_bits") {
            Some(Intrinsic::ToBits(Endian::Little))
        } else if str_eq(name, "to_be_radix") {
            Some(Intrinsic::ToRadix(Endian::Big))
        } else if str_eq(name, "to_le_radix") {
            Some(Intrinsic::ToRadix(Endian::Little))
        } else if str_eq(name, "from_field") {
            Some(Intrinsic::FromField)
        } else if str_eq(name, "as_field") {
            Some(Intrinsic::AsField)
        } else if str_eq(name, "as_witness") {
            Some(Intrinsic::AsWitness)
        } else if str_eq(name, "is_unconstrained") {
            Some(Intrinsic::IsUnconstrained)
        } else if str_eq(name, "derive_pedersen_generators") {
            Some(Intrinsic::DerivePedersenGenerators)
        } else if str_eq(name, "field_less_than") {
            Some(Intrinsic::FieldLessThan)
        } else {
            let found = match BlackBoxFunc::lookup(name) {
                Some(func) => Some(Intrinsic::BlackBox(func)),
                None => None,
            };
            assert(found is None ==> forall|intrinsic: Intrinsic|
                #[trigger] intrinsic.display() != name@);
            found
        }
    }
}

} // verus!
