//! Builtins: colours in hex notation and lengths, made from typed values.
//!
//! A colour channel is a 32-bit float, handed in as its bits. The pair of
//! hex digits `k` stands for the channel `(k + 1) / 256`, so a channel can
//! be written in hex exactly when it is one of these 256 values.
use vstd::prelude::*;
use vstd::string::StringSliceAdditionalSpecFns;
use crate::fill::CafFill;
use crate::json::{same_text, CafError, CafResult};
use crate::names::{name_as_str, name_bytes};
use crate::value::{
    BuiltinModel, CafBuiltin, CafEnumVariant, CafHexColor, CafMapEntry, CafMapKey,
    CafNumberValue, CafValue, EnumVariantModel, HexColor, MapEntryModel, MapKeyModel,
    NumberValueModel, ValKind, ValueModel,
};

verus! {

/// Two to the power of `e`.
pub open spec fn two_pow(e: nat) -> nat
    decreases e,
{
    if e == 0 {
        1
    } else {
        2 * two_pow((e - 1) as nat)
    }
}

/// The sign bit of a float.
pub open spec fn float_sign(bits: u32) -> int {
    bits as int / 0x8000_0000
}

/// The exponent field of a float.
pub open spec fn float_exponent(bits: u32) -> int {
    (bits as int / 0x80_0000) % 256
}

/// The fraction field of a float.
pub open spec fn float_fraction(bits: u32) -> int {
    bits as int % 0x80_0000
}

/// Whether the float with these bits has no sign and is exactly `num / den`.
pub open spec fn float_is_ratio(bits: u32, num: int, den: int) -> bool {
    let exp = float_exponent(bits);
    let frac = float_fraction(bits);
    float_sign(bits) == 0 && if exp == 255 {
        false
    } else if exp == 0 {
        frac * den == num * two_pow(149)
    } else if exp >= 150 {
        (0x80_0000 + frac) * two_pow((exp - 150) as nat) * den == num
    } else {
        (0x80_0000 + frac) * den == num * two_pow((150 - exp) as nat)
    }
}

/// Whether the pair of hex digits `k` stands for the channel with these bits.
pub open spec fn is_hex_channel(bits: u32, k: u8) -> bool {
    float_is_ratio(bits, k + 1, 256)
}

/// Whether some pair of hex digits stands for the channel with these bits.
pub open spec fn has_hex_channel(bits: u32) -> bool {
    exists|k: u8| is_hex_channel(bits, k)
}

proof fn lemma_two_pow_add(a: nat, b: nat)
    ensures
        two_pow(a + b) == two_pow(a) * two_pow(b),
    decreases b,
{
    if b == 0 {
        assert(two_pow(a) * 1 == two_pow(a));
    } else {
        lemma_two_pow_add(a, (b - 1) as nat);
        assert(two_pow(a + b) == 2 * two_pow((a + b - 1) as nat));
        assert(two_pow(b) == 2 * two_pow((b - 1) as nat));
        assert(2 * (two_pow(a) * two_pow((b - 1) as nat)) == two_pow(a) * (2 * two_pow(
            (b - 1) as nat,
        ))) by (nonlinear_arith);
    }
}

proof fn lemma_two_pow_grows(a: nat, b: nat)
    requires
        a <= b,
    ensures
        1 <= two_pow(a) <= two_pow(b),
    decreases b,
{
    if b == 0 {
    } else if a == b {
        lemma_two_pow_grows(0, (b - 1) as nat);
    } else {
        lemma_two_pow_grows(a, (b - 1) as nat);
    }
}

proof fn lemma_two_pow_8()
    ensures
        two_pow(7) == 128,
        two_pow(8) == 256,
        two_pow(14) == 16384,
        two_pow(15) == 32768,
        two_pow(24) == 16777216,
{
    assert(two_pow(0) == 1);
    assert(two_pow(1) == 2);
    assert(two_pow(2) == 4);
    assert(two_pow(3) == 8);
    assert(two_pow(4) == 16);
    assert(two_pow(5) == 32);
    assert(two_pow(6) == 64);
    assert(two_pow(7) == 128);
    assert(two_pow(8) == 256);
    lemma_two_pow_add(8, 6);
    assert(two_pow(14) == 256 * 64);
    lemma_two_pow_add(8, 7);
    lemma_two_pow_add(8, 8);
    lemma_two_pow_add(16, 8);
    assert(two_pow(16) == 65536);
    assert(two_pow(24) == 65536 * 256);
}

/// `2^shift` for a shift of 15 to 23.
fn divisor(shift: u32) -> (d: u32)
    requires
        15 <= shift <= 23,
    ensures
        d == two_pow(shift as nat),
        32768 <= d <= 8388608,
{
    let mut d: u32 = 32768;
    let mut i: u32 = 15;
    proof {
        lemma_two_pow_8();
    }
    while i < shift
        invariant
            15 <= i <= shift <= 23,
            d == two_pow(i as nat),
            32768 <= d,
            d * two_pow((23 - i) as nat) == 8388608,
        decreases shift - i,
    {
        proof {
            assert(two_pow((23 - i) as nat) == 2 * two_pow((23 - i - 1) as nat));
            assert(two_pow((i + 1) as nat) == 2 * two_pow(i as nat));
            assert((2 * d) * two_pow((23 - i - 1) as nat) == d * (2 * two_pow(
                (23 - i - 1) as nat,
            ))) by (nonlinear_arith);
            lemma_two_pow_grows(0, (23 - i - 1) as nat);
            assert(2 * d <= 8388608) by (nonlinear_arith)
                requires
                    (2 * d) * two_pow((23 - i - 1) as nat) == 8388608,
                    two_pow((23 - i - 1) as nat) >= 1,
            ;
        }
        d = d * 2;
        i = i + 1;
    }
    proof {
        assert(two_pow(8) == 256 && two_pow(15) == 32768);
        lemma_two_pow_add(15, 8);
        assert(8388608 == two_pow(23));
        lemma_two_pow_grows(i as nat, 23);
        lemma_two_pow_grows(0, (23 - i) as nat);
        assert(d <= 8388608) by (nonlinear_arith)
            requires
                d * two_pow((23 - i) as nat) == 8388608,
                two_pow((23 - i) as nat) >= 1,
                d >= 0,
        ;
    }
    d
}

/// Converts a colour channel to a pair of hex digits if there is no
/// precision loss: `Some(k)` where the channel is exactly `(k + 1) / 256`,
/// `None` where no pair of hex digits stands for it.
pub fn to_hex_int(bits: u32) -> (r: Option<u8>)
    ensures
        match r {
            Some(k) => is_hex_channel(bits, k),
            None => !has_hex_channel(bits),
        },
{
    let sign = bits / 0x8000_0000;
    let exp = (bits / 0x80_0000) % 256;
    let frac = bits % 0x80_0000;
    let m = 0x80_0000 + frac;
    proof {
        lemma_two_pow_8();
    }
    if sign != 0 {
        return None;
    }
    if exp < 119 || exp > 127 {
        proof {
            assert forall|k: u8| !is_hex_channel(bits, k) by {
                lemma_out_of_range(bits, k);
            }
        }
        return None;
    }
    let d = divisor(142 - exp);
    proof {
        lemma_two_pow_add((142 - exp) as nat, 8);
        assert(two_pow((150 - exp) as nat) == d * 256);
    }
    if m % d != 0 || m / d > 256 {
        proof {
            assert forall|k: u8| !is_hex_channel(bits, k) by {
                if is_hex_channel(bits, k) {
                    assert(m * 256 == (k + 1) * (d * 256));
                    assert(m == (k + 1) * d) by (nonlinear_arith)
                        requires
                            m * 256 == (k + 1) * (d * 256),
                    ;
                    lemma_multiple(m as int, k + 1, d as int);
                }
            }
        }
        return None;
    }
    let q = m / d;
    proof {
        assert(m == q * d) by (nonlinear_arith)
            requires
                m % d == 0,
                q == m / d,
                d > 0,
        ;
        assert(q >= 1) by (nonlinear_arith)
            requires
                m == q * d,
                m >= 8388608,
                d <= 8388608,
                d > 0,
                q >= 0,
        ;
        assert(m * 256 == q * (d * 256)) by (nonlinear_arith)
            requires
                m == q * d,
        ;
    }
    Some((q - 1) as u8)
}

/// A multiple of `d` leaves no rest and has its factor as quotient.
proof fn lemma_multiple(m: int, q: int, d: int)
    requires
        m == q * d,
        d > 0,
        q >= 0,
    ensures
        m % d == 0,
        m / d == q,
{
    vstd::arithmetic::div_mod::lemma_fundamental_div_mod_converse(m, d, q, 0);
}

/// A float whose exponent lies outside 119 to 127 is below `1 / 256` or
/// above `1`, or is no number.
proof fn lemma_out_of_range(bits: u32, k: u8)
    requires
        float_exponent(bits) < 119 || float_exponent(bits) > 127,
    ensures
        !is_hex_channel(bits, k),
{
    let exp = float_exponent(bits);
    let frac = float_fraction(bits);
    let m = 0x80_0000 + frac;
    lemma_two_pow_8();
    if exp == 255 {
    } else if exp == 0 {
        lemma_two_pow_add(24, 8);
        lemma_two_pow_grows(32, 149);
        assert(frac * 256 < (k + 1) * two_pow(149)) by (nonlinear_arith)
            requires
                0 <= frac < 0x80_0000,
                two_pow(149) >= 16777216 * 256,
                k >= 0,
        ;
    } else if exp >= 150 {
        lemma_two_pow_grows(0, (exp - 150) as nat);
        assert(m * two_pow((exp - 150) as nat) * 256 > k + 1) by (nonlinear_arith)
            requires
                m >= 0x80_0000,
                two_pow((exp - 150) as nat) >= 1,
                k <= 255,
        ;
    } else if exp < 119 {
        lemma_two_pow_add(24, 8);
        lemma_two_pow_grows(32, (150 - exp) as nat);
        assert(m * 256 < (k + 1) * two_pow((150 - exp) as nat)) by (nonlinear_arith)
            requires
                m < 16777216,
                two_pow((150 - exp) as nat) >= 16777216 * 256,
                k >= 0,
        ;
    } else {
        lemma_two_pow_add(14, 8);
        lemma_two_pow_grows((150 - exp) as nat, 22);
        assert(m * 256 > (k + 1) * two_pow((150 - exp) as nat)) by (nonlinear_arith)
            requires
                m >= 0x80_0000,
                two_pow((150 - exp) as nat) <= 16384 * 256,
                k <= 255,
                two_pow((150 - exp) as nat) >= 0,
        ;
    }
}

impl CafHexColor {
    /// The colour with these channels, where each of them can be written in
    /// hex without precision loss. An alpha of one is left out.
    pub fn try_from_bits(red: u32, green: u32, blue: u32, alpha: u32) -> (r: Result<
        CafHexColor,
        (),
    >)
        ensures
            r is Ok <==> has_hex_channel(red) && has_hex_channel(green) && has_hex_channel(blue)
                && has_hex_channel(alpha),
            r matches Ok(c) ==> c.fill@.len() == 0 && is_hex_channel(red, c.color.red)
                && is_hex_channel(green, c.color.green) && is_hex_channel(blue, c.color.blue)
                && match c.color.alpha {
                Some(a) => a != 255 && is_hex_channel(alpha, a),
                None => is_hex_channel(alpha, 255),
            },
    {
        match (to_hex_int(red), to_hex_int(green), to_hex_int(blue), to_hex_int(alpha)) {
            (Some(r), Some(g), Some(b), Some(a)) => Ok(
                CafHexColor {
                    fill: CafFill::new(),
                    color: HexColor {
                        red: r,
                        green: g,
                        blue: b,
                        alpha: if a == 255 {
                            None
                        } else {
                            Some(a)
                        },
                    },
                },
            ),
            _ => Err(()),
        }
    }
}

/// The unit that a variant of the length type names.
pub open spec fn unit_of_variant(variant: Seq<u8>) -> Option<ValKind> {
    if variant == "Px".spec_bytes() {
        Some(ValKind::Px)
    } else if variant == "Percent".spec_bytes() {
        Some(ValKind::Percent)
    } else if variant == "Vw".spec_bytes() {
        Some(ValKind::Vw)
    } else if variant == "Vh".spec_bytes() {
        Some(ValKind::Vh)
    } else if variant == "VMin".spec_bytes() {
        Some(ValKind::VMin)
    } else if variant == "VMax".spec_bytes() {
        Some(ValKind::VMax)
    } else {
        None
    }
}

/// What a newtype variant is as a builtin: a length where the type is `Val`
/// and the value a number, nothing for any other type.
pub open spec fn newtype_builtin(typename: Seq<u8>, variant: Seq<u8>, value: ValueModel)
    -> CafResult<Option<BuiltinModel>> {
    if typename == "Val".spec_bytes() {
        match value {
            ValueModel::Number(n) => match unit_of_variant(variant) {
                Some(val) => Ok(
                    Some(BuiltinModel::Val { fill: Seq::empty(), number: Some(n.number), val }),
                ),
                None => Err(CafError::MalformedBuiltin),
            },
            _ => Ok(None),
        }
    } else {
        Ok(None)
    }
}

/// The numbers of the channels of a colour, as far as its map names them.
pub struct SrgbaNumbers {
    pub red: Option<CafNumberValue>,
    pub green: Option<CafNumberValue>,
    pub blue: Option<CafNumberValue>,
    pub alpha: Option<CafNumberValue>,
}

/// The model of [`SrgbaNumbers`].
pub struct SrgbaModel {
    pub red: Option<NumberValueModel>,
    pub green: Option<NumberValueModel>,
    pub blue: Option<NumberValueModel>,
    pub alpha: Option<NumberValueModel>,
}

pub open spec fn number_view(n: Option<CafNumberValue>) -> Option<NumberValueModel> {
    match n {
        Some(n) => Some(n@),
        None => None,
    }
}

impl View for SrgbaNumbers {
    type V = SrgbaModel;

    open spec fn view(&self) -> SrgbaModel {
        SrgbaModel {
            red: number_view(self.red),
            green: number_view(self.green),
            blue: number_view(self.blue),
            alpha: number_view(self.alpha),
        }
    }
}

/// The channels `into` with the entries of a colour's map set in order. An
/// entry that is no field with a name is malformed; one whose value is no
/// number, or whose name is no channel, shows that the map is no colour.
pub open spec fn srgba_entries(es: Seq<MapEntryModel>, into: SrgbaModel) -> CafResult<
    Option<SrgbaModel>,
>
    decreases es.len(),
{
    if es.len() == 0 {
        Ok(Some(into))
    } else {
        match es[0] {
            MapEntryModel::KeyValue(kv) => match kv.key {
                MapKeyModel::FieldName { fill, name } => match kv.value {
                    ValueModel::Number(n) => if name == "red".spec_bytes() {
                        srgba_entries(
                            es.drop_first(),
                            SrgbaModel { red: Some(n.number), ..into },
                        )
                    } else if name == "green".spec_bytes() {
                        srgba_entries(
                            es.drop_first(),
                            SrgbaModel { green: Some(n.number), ..into },
                        )
                    } else if name == "blue".spec_bytes() {
                        srgba_entries(
                            es.drop_first(),
                            SrgbaModel { blue: Some(n.number), ..into },
                        )
                    } else if name == "alpha".spec_bytes() {
                        srgba_entries(
                            es.drop_first(),
                            SrgbaModel { alpha: Some(n.number), ..into },
                        )
                    } else {
                        Ok(None)
                    },
                    _ => Ok(None),
                },
                _ => Err(CafError::MalformedBuiltin),
            },
            MapEntryModel::MacroParam => Err(CafError::MalformedBuiltin),
        }
    }
}

/// The channel numbers of a newtype variant that is a colour: the type is
/// `Color`, the variant `Srgba`, and the value the variant `Srgba` with a map.
pub open spec fn srgba_numbers_of(typename: Seq<u8>, variant: Seq<u8>, value: ValueModel)
    -> CafResult<Option<SrgbaModel>> {
    if typename == "Color".spec_bytes() && variant == "Srgba".spec_bytes() {
        match value {
            ValueModel::EnumVariant(EnumVariantModel::Mapping { id, map }) => if id.name
                == "Srgba".spec_bytes() {
                srgba_entries(
                    map.entries,
                    SrgbaModel { red: None, green: None, blue: None, alpha: None },
                )
            } else {
                Ok(None)
            },
            _ => Ok(None),
        }
    } else {
        Ok(None)
    }
}

/// Whether a name is the text `lit`.
fn name_is_text(name: &smol_str::SmolStr, lit: &str) -> (r: bool)
    ensures
        r == (name_bytes(*name) == lit.spec_bytes()),
{
    same_text(name_as_str(name), lit)
}

impl CafBuiltin {
    /// A unit variant as a builtin: `Val::Auto` is `auto`.
    pub fn try_from_unit_variant(typename: &str, variant: &str) -> (r: CafResult<Option<Self>>)
        ensures
            match r {
                Ok(Some(b)) => typename.spec_bytes() == "Val".spec_bytes() && variant.spec_bytes()
                    == "Auto".spec_bytes() && b@ == (BuiltinModel::Val {
                    fill: Seq::empty(),
                    number: None,
                    val: ValKind::Auto,
                }),
                Ok(None) => !(typename.spec_bytes() == "Val".spec_bytes() && variant.spec_bytes()
                    == "Auto".spec_bytes()),
                Err(_) => false,
            },
    {
        if same_text(typename, "Val") && same_text(variant, "Auto") {
            return Ok(
                Some(CafBuiltin::Val { fill: CafFill::new(), number: None, val: ValKind::Auto }),
            );
        }
        Ok(None)
    }

    /// A newtype variant as a length. The value should not contain any
    /// macros or constants.
    ///
    /// A colour needs its channels as floats: see [`Self::srgba_numbers`]
    /// and [`CafHexColor::try_from_bits`].
    pub fn try_from_newtype_variant(typename: &str, variant: &str, value: &CafValue) -> (r:
        CafResult<Option<Self>>)
        ensures
            match newtype_builtin(typename.spec_bytes(), variant.spec_bytes(), value@) {
                Ok(Some(b)) => r matches Ok(Some(found)) && found@ == b,
                Ok(None) => r matches Ok(None),
                Err(e) => r matches Err(found) && found == e,
            },
    {
        if same_text(typename, "Val") {
            let CafValue::Number(num) = value else {
                assert(!(value@ is Number));
                return Ok(None);
            };
            assert(value@ == ValueModel::Number(num@));
            let val = if same_text(variant, "Px") {
                ValKind::Px
            } else if same_text(variant, "Percent") {
                ValKind::Percent
            } else if same_text(variant, "Vw") {
                ValKind::Vw
            } else if same_text(variant, "Vh") {
                ValKind::Vh
            } else if same_text(variant, "VMin") {
                ValKind::VMin
            } else if same_text(variant, "VMax") {
                ValKind::VMax
            } else {
                return Err(CafError::MalformedBuiltin);
            };
            return Ok(
                Some(
                    CafBuiltin::Val { fill: CafFill::new(), number: Some(num.number.duplicate()), val },
                ),
            );
        }
        Ok(None)
    }

    /// The numbers of the channels of a newtype variant that is a colour.
    pub fn srgba_numbers(typename: &str, variant: &str, value: &CafValue) -> (r: CafResult<
        Option<SrgbaNumbers>,
    >)
        ensures
            match srgba_numbers_of(typename.spec_bytes(), variant.spec_bytes(), value@) {
                Ok(Some(n)) => r matches Ok(Some(found)) && found@ == n,
                Ok(None) => r matches Ok(None),
                Err(e) => r matches Err(found) && found == e,
            },
    {
        if !(same_text(typename, "Color") && same_text(variant, "Srgba")) {
            return Ok(None);
        }
        let CafValue::EnumVariant(node) = value else {
            assert(!(value@ is EnumVariant));
            return Ok(None);
        };
        assert(value@ == ValueModel::EnumVariant(node@));
        let CafEnumVariant::Mapping { id, map } = node else {
            assert(!(node@ is Mapping));
            return Ok(None);
        };
        assert(node@ == (EnumVariantModel::Mapping { id: id@, map: map@ }));
        if !name_is_text(&id.name, "Srgba") {
            return Ok(None);
        }
        let mut color = SrgbaNumbers { red: None, green: None, blue: None, alpha: None };
        let ghost models = map@.entries;
        let ghost whole = srgba_numbers_of(typename.spec_bytes(), variant.spec_bytes(), value@);
        proof {
            crate::value::lemma_entries_view(map.entries@);
            assert(models.subrange(0, models.len() as int) =~= models);
        }
        let mut i: usize = 0;
        while i < map.entries.len()
            invariant
                0 <= i <= map.entries@.len(),
                models == map@.entries,
                models.len() == map.entries@.len(),
                forall|j: int|
                    0 <= j < map.entries@.len() ==> #[trigger] models[j] == map.entries@[j]@,
                whole == srgba_numbers_of(typename.spec_bytes(), variant.spec_bytes(), value@),
                whole == srgba_entries(models.subrange(i as int, models.len() as int), color@),
            decreases map.entries@.len() - i,
        {
            let ghost rest = models.subrange(i as int, models.len() as int);
            proof {
                assert(rest[0] == map.entries@[i as int]@);
                assert(rest.drop_first() =~= models.subrange(i + 1, models.len() as int));
            }
            let CafMapEntry::KeyValue(keyval) = &map.entries[i] else {
                assert(map.entries@[i as int]@ is MacroParam);
                return Err(CafError::MalformedBuiltin);
            };
            assert(map.entries@[i as int]@ == MapEntryModel::KeyValue(keyval@));
            assert(keyval@.key == keyval.key@ && keyval@.value == keyval.value@);
            let CafMapKey::FieldName { fill: _, name } = &keyval.key else {
                assert(keyval.key@ is Value);
                return Err(CafError::MalformedBuiltin);
            };
            assert(keyval.key@ is FieldName && keyval.key@->FieldName_name == name_bytes(*name));
            let CafValue::Number(num) = &keyval.value else {
                assert(!(keyval.value@ is Number));
                return Ok(None);
            };
            assert(keyval.value@ == ValueModel::Number(num@));
            if name_is_text(name, "red") {
                color.red = Some(num.number.duplicate());
            } else if name_is_text(name, "green") {
                color.green = Some(num.number.duplicate());
            } else if name_is_text(name, "blue") {
                color.blue = Some(num.number.duplicate());
            } else if name_is_text(name, "alpha") {
                color.alpha = Some(num.number.duplicate());
            } else {
                return Ok(None);
            }
            i += 1;
        }
        Ok(Some(color))
    }
}

} // verus!
