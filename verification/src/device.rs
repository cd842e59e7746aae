//! The values that the device is driven with: the lights and the sets of
//! them, the hardware targets, the colors and the built-in effects.

pub use crate::rgb::RgbColorParseError;
use crate::text::{chars_of, contains, contains_text, lowercase, to_lowercase};
use vstd::prelude::*;
use vstd::string::*;

verus! {

/// One of the six lights: three on the flag, three on the back.
#[derive(Clone, Copy, Debug, PartialEq, Eq, Structural)]
pub enum Lights {
    FlagBottom,
    FlagMiddle,
    FlagTop,
    BackBottom,
    BackMiddle,
    BackTop,
}

/// What a command addresses: every light, one side, or a single light.
#[derive(Clone, Copy, Debug, PartialEq, Eq, Structural)]
pub enum Target {
    All,
    Back,
    Tab,
    TabBottomLed,
    TabMiddleLed,
    TabTopLed,
    BackBottomLed,
    BackMiddleLed,
    BackTopLed,
}

/// The bit that stands for a light in a `LightSet`.
pub open spec fn mask_of(light: Lights) -> u8 {
    match light {
        Lights::FlagBottom => 0b000001,
        Lights::FlagMiddle => 0b000010,
        Lights::FlagTop => 0b000100,
        Lights::BackBottom => 0b001000,
        Lights::BackMiddle => 0b010000,
        Lights::BackTop => 0b100000,
    }
}

/// The three lights of the flag.
pub open spec fn flag_lights() -> Set<Lights> {
    set![Lights::FlagBottom, Lights::FlagMiddle, Lights::FlagTop]
}

/// The three lights of the back.
pub open spec fn back_lights() -> Set<Lights> {
    set![Lights::BackBottom, Lights::BackMiddle, Lights::BackTop]
}

/// All six lights.
pub open spec fn all_lights() -> Set<Lights> {
    Set::new(|light: Lights| true)
}

/// The lights of `bits`, a bit mask.
pub open spec fn lights_of(bits: u8) -> Set<Lights> {
    Set::new(|light: Lights| bits & mask_of(light) != 0)
}

/// `light` alone if `lights` holds it, nothing otherwise.
pub open spec fn picked(lights: Set<Lights>, light: Lights) -> Seq<Lights> {
    if lights.contains(light) {
        seq![light]
    } else {
        Seq::<Lights>::empty()
    }
}

/// The lights of a set from the bottom of the flag to the top of the back.
pub open spec fn in_order(lights: Set<Lights>) -> Seq<Lights> {
    picked(lights, Lights::FlagBottom) + picked(lights, Lights::FlagMiddle) + picked(
        lights,
        Lights::FlagTop,
    ) + picked(lights, Lights::BackBottom) + picked(lights, Lights::BackMiddle) + picked(
        lights,
        Lights::BackTop,
    )
}

/// One more light, picked behind lights that are all different from it.
proof fn lemma_pick(before: Seq<Lights>, lights: Set<Lights>, light: Lights)
    requires
        before.no_duplicates(),
        !before.contains(light),
    ensures
        (before + picked(lights, light)).no_duplicates(),
        (before + picked(lights, light)).len() <= before.len() + 1,
        forall|other: Lights|
            (before + picked(lights, light)).contains(other) <==> before.contains(other) || (other
                == light && lights.contains(light)),
{
    let after = before + picked(lights, light);
    if lights.contains(light) {
        assert(after =~= before.push(light));
        assert(after[before.len() as int] == light);
        assert forall|other: Lights| before.contains(other) implies after.contains(other) by {
            let at = choose|at: int| 0 <= at < before.len() && before[at] == other;
            assert(after[at] == other);
        }
    } else {
        assert(after =~= before);
    }
}

/// The lights of a set in order are the lights of the set, each of them
/// once.
pub proof fn lemma_in_order(lights: Set<Lights>)
    ensures
        in_order(lights).len() <= 6,
        in_order(lights).no_duplicates(),
        forall|light: Lights| in_order(lights).contains(light) <==> lights.contains(light),
{
    let none = Seq::<Lights>::empty();
    lemma_pick(none, lights, Lights::FlagBottom);
    let one = picked(lights, Lights::FlagBottom);
    assert(none + one =~= one);
    lemma_pick(one, lights, Lights::FlagMiddle);
    let two = one + picked(lights, Lights::FlagMiddle);
    lemma_pick(two, lights, Lights::FlagTop);
    let three = two + picked(lights, Lights::FlagTop);
    lemma_pick(three, lights, Lights::BackBottom);
    let four = three + picked(lights, Lights::BackBottom);
    lemma_pick(four, lights, Lights::BackMiddle);
    let five = four + picked(lights, Lights::BackMiddle);
    lemma_pick(five, lights, Lights::BackTop);
    let six = five + picked(lights, Lights::BackTop);
    assert forall|light: Lights| six.contains(light) <==> lights.contains(light) by {
        assert(!none.contains(light));
        assert(one.contains(light) <==> light == Lights::FlagBottom && lights.contains(light));
        assert(two.contains(light) <==> one.contains(light) || (light == Lights::FlagMiddle
            && lights.contains(light)));
        assert(three.contains(light) <==> two.contains(light) || (light == Lights::FlagTop
            && lights.contains(light)));
        assert(four.contains(light) <==> three.contains(light) || (light == Lights::BackBottom
            && lights.contains(light)));
        assert(five.contains(light) <==> four.contains(light) || (light == Lights::BackMiddle
            && lights.contains(light)));
        assert(six.contains(light) <==> five.contains(light) || (light == Lights::BackTop
            && lights.contains(light)));
    }
}

/// A set of lights, kept as a mask of six bits.
#[derive(Clone, Copy, Debug, PartialEq, Eq, Structural)]
pub struct LightSet {
    bits: u8,
}

/// The lights of the four masks that have a name.
proof fn lemma_masks()
    ensures
        lights_of(0) =~= Set::<Lights>::empty(),
        lights_of(0b000111) =~= flag_lights(),
        lights_of(0b111000) =~= back_lights(),
        lights_of(0b111111) =~= all_lights(),
{
    assert(0u8 & 1 == 0 && 0u8 & 2 == 0 && 0u8 & 4 == 0 && 0u8 & 8 == 0 && 0u8 & 16 == 0 && 0u8
        & 32 == 0) by (bit_vector);
    assert(7u8 & 1 != 0 && 7u8 & 2 != 0 && 7u8 & 4 != 0 && 7u8 & 8 == 0 && 7u8 & 16 == 0 && 7u8
        & 32 == 0) by (bit_vector);
    assert(56u8 & 1 == 0 && 56u8 & 2 == 0 && 56u8 & 4 == 0 && 56u8 & 8 != 0 && 56u8 & 16 != 0
        && 56u8 & 32 != 0) by (bit_vector);
    assert(63u8 & 1 != 0 && 63u8 & 2 != 0 && 63u8 & 4 != 0 && 63u8 & 8 != 0 && 63u8 & 16 != 0
        && 63u8 & 32 != 0) by (bit_vector);
}

/// What it is for a mask to hold each of the six lights.
proof fn lemma_members(bits: u8)
    ensures
        lights_of(bits).contains(Lights::FlagBottom) == (bits & 1 != 0),
        lights_of(bits).contains(Lights::FlagMiddle) == (bits & 2 != 0),
        lights_of(bits).contains(Lights::FlagTop) == (bits & 4 != 0),
        lights_of(bits).contains(Lights::BackBottom) == (bits & 8 != 0),
        lights_of(bits).contains(Lights::BackMiddle) == (bits & 16 != 0),
        lights_of(bits).contains(Lights::BackTop) == (bits & 32 != 0),
{
    assert(mask_of(Lights::FlagBottom) == 1 && mask_of(Lights::FlagMiddle) == 2 && mask_of(
        Lights::FlagTop,
    ) == 4 && mask_of(Lights::BackBottom) == 8 && mask_of(Lights::BackMiddle) == 16 && mask_of(
        Lights::BackTop,
    ) == 32);
}

/// Two masks of six bits hold the same lights only if they are equal.
proof fn lemma_same_lights(a: u8, b: u8)
    requires
        a < 64,
        b < 64,
        lights_of(a) == lights_of(b),
    ensures
        a == b,
{
    lemma_members(a);
    lemma_members(b);
    assert(a == b) by (bit_vector)
        requires
            a < 64,
            b < 64,
            (a & 1 != 0) == (b & 1 != 0),
            (a & 2 != 0) == (b & 2 != 0),
            (a & 4 != 0) == (b & 4 != 0),
            (a & 8 != 0) == (b & 8 != 0),
            (a & 16 != 0) == (b & 16 != 0),
            (a & 32 != 0) == (b & 32 != 0),
    ;
}

impl View for LightSet {
    type V = Set<Lights>;

    closed spec fn view(&self) -> Set<Lights> {
        lights_of(self.bits)
    }
}

impl LightSet {
    #[verifier::type_invariant]
    spec fn six_bits(self) -> bool {
        self.bits < 64
    }

    /// No light.
    pub fn empty() -> (lights: LightSet)
        ensures
            lights@ == Set::<Lights>::empty(),
    {
        proof {
            lemma_masks();
        }
        LightSet { bits: 0 }
    }

    /// Every light.
    pub fn all() -> (lights: LightSet)
        ensures
            lights@ == all_lights(),
    {
        proof {
            lemma_masks();
        }
        LightSet { bits: 0b111111 }
    }

    /// The one light `light`.
    pub fn only(light: Lights) -> (lights: LightSet)
        ensures
            lights@ == set![light],
    {
        let bits: u8 = match light {
            Lights::FlagBottom => 0b000001,
            Lights::FlagMiddle => 0b000010,
            Lights::FlagTop => 0b000100,
            Lights::BackBottom => 0b001000,
            Lights::BackMiddle => 0b010000,
            Lights::BackTop => 0b100000,
        };
        proof {
            assert(1u8 & 1 != 0 && 1u8 & 2 == 0 && 1u8 & 4 == 0 && 1u8 & 8 == 0 && 1u8 & 16 == 0
                && 1u8 & 32 == 0) by (bit_vector);
            assert(2u8 & 1 == 0 && 2u8 & 2 != 0 && 2u8 & 4 == 0 && 2u8 & 8 == 0 && 2u8 & 16 == 0
                && 2u8 & 32 == 0) by (bit_vector);
            assert(4u8 & 1 == 0 && 4u8 & 2 == 0 && 4u8 & 4 != 0 && 4u8 & 8 == 0 && 4u8 & 16 == 0
                && 4u8 & 32 == 0) by (bit_vector);
            assert(8u8 & 1 == 0 && 8u8 & 2 == 0 && 8u8 & 4 == 0 && 8u8 & 8 != 0 && 8u8 & 16 == 0
                && 8u8 & 32 == 0) by (bit_vector);
            assert(16u8 & 1 == 0 && 16u8 & 2 == 0 && 16u8 & 4 == 0 && 16u8 & 8 == 0 && 16u8 & 16
                != 0 && 16u8 & 32 == 0) by (bit_vector);
            assert(32u8 & 1 == 0 && 32u8 & 2 == 0 && 32u8 & 4 == 0 && 32u8 & 8 == 0 && 32u8 & 16
                == 0 && 32u8 & 32 != 0) by (bit_vector);
            assert(lights_of(bits) =~= set![light]);
        }
        LightSet { bits }
    }

    /// The set that a mask stands for, if the mask has no bit beyond the six.
    pub fn from_bits(bits: u8) -> (lights: Option<LightSet>)
        ensures
            bits < 64 ==> lights is Some && lights->0@ == lights_of(bits),
            bits >= 64 ==> lights is None,
    {
        if bits < 64 {
            Some(LightSet { bits })
        } else {
            None
        }
    }

    /// The mask of the set: bit 0 for the bottom of the flag, up to bit 5 for
    /// the top of the back.
    pub fn bits(&self) -> (bits: u8)
        ensures
            bits < 64,
            lights_of(bits) == self@,
    {
        proof {
            use_type_invariant(self);
        }
        self.bits
    }

    pub fn is_empty(&self) -> (r: bool)
        ensures
            r == (self@ == Set::<Lights>::empty()),
    {
        proof {
            use_type_invariant(self);
            lemma_masks();
            if self@ == Set::<Lights>::empty() {
                lemma_same_lights(self.bits, 0);
            }
        }
        self.bits == 0
    }

    pub fn is_all(&self) -> (r: bool)
        ensures
            r == (self@ == all_lights()),
    {
        proof {
            use_type_invariant(self);
            lemma_masks();
            if self@ == all_lights() {
                lemma_same_lights(self.bits, 0b111111);
            }
        }
        self.bits == 0b111111
    }

    /// Whether the two sets hold the same lights.
    pub fn same_as(&self, other: &LightSet) -> (r: bool)
        ensures
            r == (self@ == other@),
    {
        proof {
            use_type_invariant(self);
            use_type_invariant(other);
            if self@ == other@ {
                lemma_same_lights(self.bits, other.bits);
            }
        }
        self.bits == other.bits
    }

    pub fn contains(&self, light: Lights) -> (r: bool)
        ensures
            r == self@.contains(light),
    {
        let mask: u8 = match light {
            Lights::FlagBottom => 0b000001,
            Lights::FlagMiddle => 0b000010,
            Lights::FlagTop => 0b000100,
            Lights::BackBottom => 0b001000,
            Lights::BackMiddle => 0b010000,
            Lights::BackTop => 0b100000,
        };
        self.bits & mask != 0
    }

    /// The lights of either set.
    pub fn union(self, other: LightSet) -> (both: LightSet)
        ensures
            both@ == self@.union(other@),
    {
        proof {
            use_type_invariant(self);
            use_type_invariant(other);
            let a = self.bits;
            let b = other.bits;
            assert(a < 64 && b < 64 ==> (a | b) < 64) by (bit_vector);
            assert(forall|m: u8| ((a | b) & m != 0) == (a & m != 0 || b & m != 0)) by (bit_vector);
            assert(lights_of(a | b) =~= lights_of(a).union(lights_of(b)));
        }
        LightSet { bits: self.bits | other.bits }
    }

    /// The lights of the set from the bottom of the flag to the top of the
    /// back.
    pub fn iter(&self) -> (lights: Vec<Lights>)
        ensures
            lights@ == in_order(self@),
    {
        let mut lights: Vec<Lights> = Vec::new();
        if self.contains(Lights::FlagBottom) {
            lights.push(Lights::FlagBottom);
        }
        if self.contains(Lights::FlagMiddle) {
            lights.push(Lights::FlagMiddle);
        }
        if self.contains(Lights::FlagTop) {
            lights.push(Lights::FlagTop);
        }
        if self.contains(Lights::BackBottom) {
            lights.push(Lights::BackBottom);
        }
        if self.contains(Lights::BackMiddle) {
            lights.push(Lights::BackMiddle);
        }
        if self.contains(Lights::BackTop) {
            lights.push(Lights::BackTop);
        }
        assert(lights@ =~= in_order(self@));
        lights
    }
}

impl Lights {
    /// Every light.
    pub fn all() -> (lights: LightSet)
        ensures
            lights@ == all_lights(),
    {
        LightSet::all()
    }

    /// The three lights of the flag.
    pub fn flag() -> (lights: LightSet)
        ensures
            lights@ == flag_lights(),
    {
        let lights = LightSet::only(Lights::FlagBottom).union(
            LightSet::only(Lights::FlagMiddle),
        ).union(LightSet::only(Lights::FlagTop));
        assert(lights@ =~= flag_lights());
        lights
    }

    /// The three lights of the back.
    pub fn back() -> (lights: LightSet)
        ensures
            lights@ == back_lights(),
    {
        let lights = LightSet::only(Lights::BackBottom).union(
            LightSet::only(Lights::BackMiddle),
        ).union(LightSet::only(Lights::BackTop));
        assert(lights@ =~= back_lights());
        lights
    }
}

/// The eight colors that the device knows by name.
#[derive(Clone, Copy, Debug, PartialEq, Eq, Structural)]
pub enum SimpleColor {
    Red,
    Green,
    Blue,
    Cyan,
    Magenta,
    Yellow,
    White,
    Off,
}

/// The four built-in waves.
#[derive(Clone, Copy, Debug, PartialEq, Eq, Structural)]
pub enum WaveType {
    Short,
    Long,
    OverlappingShort,
    OverlappingLong,
}

/// The eight built-in patterns.
#[derive(Clone, Copy, Debug, PartialEq, Eq, Structural)]
pub enum PatternType {
    Luxafor,
    Police,
    Random1,
    Random2,
    Random3,
    Random4,
    Random5,
    RainbowWave,
}

/// A color by its red, green and blue parts.
#[derive(Clone, Copy, Debug, PartialEq, Eq, Structural)]
pub struct RgbColor(pub u8, pub u8, pub u8);

impl RgbColor {
    pub fn red() -> (color: RgbColor)
        ensures
            color == RgbColor(255, 0, 0),
    {
        RgbColor(255, 0, 0)
    }

    pub fn green() -> (color: RgbColor)
        ensures
            color == RgbColor(0, 255, 0),
    {
        RgbColor(0, 255, 0)
    }

    pub fn blue() -> (color: RgbColor)
        ensures
            color == RgbColor(0, 0, 255),
    {
        RgbColor(0, 0, 255)
    }

    pub fn cyan() -> (color: RgbColor)
        ensures
            color == RgbColor(0, 255, 255),
    {
        RgbColor(0, 255, 255)
    }

    pub fn magenta() -> (color: RgbColor)
        ensures
            color == RgbColor(255, 0, 255),
    {
        RgbColor(255, 0, 255)
    }

    pub fn yellow() -> (color: RgbColor)
        ensures
            color == RgbColor(255, 255, 0),
    {
        RgbColor(255, 255, 0)
    }

    pub fn white() -> (color: RgbColor)
        ensures
            color == RgbColor(255, 255, 255),
    {
        RgbColor(255, 255, 255)
    }

    pub fn off() -> (color: RgbColor)
        ensures
            color == RgbColor(0, 0, 0),
    {
        RgbColor(0, 0, 0)
    }
}

/// What the device answered when it was asked for one of the texts that
/// describe it.
#[derive(Debug)]
pub enum Descriptor {
    /// The device has the text.
    Known(String),
    /// The device has no such text.
    Unknown,
    /// The question failed; the text says how.
    Unreadable(String),
}

/// The model of a `Descriptor`.
pub enum DescriptorText {
    Known(Seq<char>),
    Unknown,
    Unreadable(Seq<char>),
}

impl View for Descriptor {
    type V = DescriptorText;

    open spec fn view(&self) -> DescriptorText {
        match self {
            Descriptor::Known(text) => DescriptorText::Known(text@),
            Descriptor::Unknown => DescriptorText::Unknown,
            Descriptor::Unreadable(fault) => DescriptorText::Unreadable(fault@),
        }
    }
}

/// Whether a product text, in lower case, is that of a Luxafor.
pub open spec fn names_luxafor(lowered: Seq<char>) -> bool {
    contains_text(lowered, "luxafor"@)
}

/// Why a device with this product text is not taken, if it is not. `lowered`
/// is the text in lower case, where there is a text.
pub open spec fn product_fault(product: DescriptorText, lowered: Seq<char>) -> Option<Seq<char>> {
    match product {
        DescriptorText::Known(text) => if names_luxafor(lowered) {
            None
        } else {
            Some("Unexpected product string: "@ + text)
        },
        DescriptorText::Unknown => None,
        DescriptorText::Unreadable(fault) => Some(fault),
    }
}

/// The description of a device with these three texts.
pub open spec fn description(
    manufacturer: DescriptorText,
    product: DescriptorText,
    serial: DescriptorText,
) -> Seq<char> {
    "Luxafor device"@ + (match manufacturer {
        DescriptorText::Known(text) => ", manufacturer \""@ + text + "\""@,
        DescriptorText::Unknown => " <manufacturer unknown>"@,
        DescriptorText::Unreadable(_) => " <error getting manufacturer string>"@,
    }) + (match product {
        DescriptorText::Known(text) => ", product \""@ + text + "\""@,
        DescriptorText::Unknown => " <product unknown>"@,
        DescriptorText::Unreadable(_) => " <error getting product string>"@,
    }) + (match serial {
        DescriptorText::Known(text) => ", s/n: "@ + text,
        DescriptorText::Unknown => ", <serial number unknown>"@,
        DescriptorText::Unreadable(_) => Seq::<char>::empty(),
    })
}

/// Whether a product text, already in lower case, is that of a Luxafor.
pub fn is_luxafor(lowered: &str) -> (r: bool)
    ensures
        r == names_luxafor(lowered@),
{
    let haystack = chars_of(lowered);
    let needle = chars_of("luxafor");
    contains(&haystack, &needle)
}

/// A Luxafor that was found and asked for the texts that describe it.
#[derive(Debug)]
pub struct Luxafor {
    manufacturer: Descriptor,
    product: Descriptor,
    serial: Descriptor,
}

impl Luxafor {
    pub closed spec fn manufacturer(&self) -> DescriptorText {
        self.manufacturer@
    }

    pub closed spec fn product(&self) -> DescriptorText {
        self.product@
    }

    pub closed spec fn serial(&self) -> DescriptorText {
        self.serial@
    }

    /// Takes the device that gave these answers, unless its product text
    /// could not be read or does not name a Luxafor, in whatever case. A
    /// device without a product text is taken.
    pub fn new(manufacturer: Descriptor, product: Descriptor, serial: Descriptor) -> (result:
        Result<Luxafor, String>)
        ensures
            match result {
                Ok(device) => {
                    &&& product_fault(
                        product@,
                        lowercase(product@->Known_0),
                    ) is None
                    &&& device.manufacturer() == manufacturer@
                    &&& device.product() == product@
                    &&& device.serial() == serial@
                },
                Err(fault) => product_fault(product@, lowercase(product@->Known_0)) == Some(
                    fault@,
                ),
            },
    {
        let fault = match &product {
            Descriptor::Known(text) => {
                let lowered = to_lowercase(text.as_str());
                if is_luxafor(lowered.as_str()) {
                    None
                } else {
                    let mut fault = String::from_str("Unexpected product string: ");
                    fault.append(text.as_str());
                    Some(fault)
                }
            },
            Descriptor::Unknown => None,
            Descriptor::Unreadable(fault) => Some(fault.clone()),
        };
        match fault {
            Some(fault) => Err(fault),
            None => Ok(Luxafor { manufacturer, product, serial }),
        }
    }

    /// The description of the device: what it is and the three texts, as far
    /// as they are known.
    pub fn describe(&self) -> (text: String)
        ensures
            text@ == description(self.manufacturer(), self.product(), self.serial()),
    {
        let mut text = String::from_str("Luxafor device");
        let ghost start = text@;
        match &self.manufacturer {
            Descriptor::Known(name) => {
                text.append(", manufacturer \"");
                text.append(name.as_str());
                text.append("\"");
                assert(text@ =~= start + (", manufacturer \""@ + name@ + "\""@));
            },
            Descriptor::Unknown => {
                text.append(" <manufacturer unknown>");
            },
            Descriptor::Unreadable(_) => {
                text.append(" <error getting manufacturer string>");
            },
        }
        let ghost middle = text@;
        match &self.product {
            Descriptor::Known(name) => {
                text.append(", product \"");
                text.append(name.as_str());
                text.append("\"");
                assert(text@ =~= middle + (", product \""@ + name@ + "\""@));
            },
            Descriptor::Unknown => {
                text.append(" <product unknown>");
            },
            Descriptor::Unreadable(_) => {
                text.append(" <error getting product string>");
            },
        }
        let ghost end = text@;
        match &self.serial {
            Descriptor::Known(number) => {
                text.append(", s/n: ");
                text.append(number.as_str());
                assert(text@ =~= end + (", s/n: "@ + number@));
            },
            Descriptor::Unknown => {
                text.append(", <serial number unknown>");
            },
            Descriptor::Unreadable(_) => {
                assert(text@ =~= end + Seq::<char>::empty());
            },
        }
        text
    }
}

} // verus!
