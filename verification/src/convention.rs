//! The closed registry of convention frameworks and the cumulative H-Group
//! profiles, with their textual identifiers.

use vstd::prelude::*;
use vstd::string::*;
use vstd::utf8::*;
use vstd::std_specs::cmp::PartialOrdSpecImpl;

use crate::text::{debug_quoted, debug_text, decimal, decimal_string, push_decimal};

verus! {

broadcast use vstd::utf8::encode_utf8_valid_utf8;

/// H-Group documentation revision implemented by this engine.
///
/// Keeping the source revision next to the convention implementation makes
/// analyses reproducible as the living convention framework changes.
pub const H_GROUP_RULESET_REVISION: &'static str = "2db23dc5bc8bba067fec6c79b3323bef21ed6e1c";

/// One numbered level in the cumulative H-Group learning path. Levels are
/// ordered by their numbers.
#[derive(Clone, Copy, Debug, PartialEq, Eq, Structural, Hash, Ord)]
pub enum HGroupLevel {
    Level1,
    Level2,
    Level3,
    Level4,
    Level5,
    Level6,
    Level7,
    Level8,
    Level9,
    Level10,
    Level11,
    Level12,
    Level13,
    Level14,
    Level15,
    Level16,
    Level17,
    Level18,
    Level19,
    Level20,
    Level21,
    Level22,
    Level23,
    Level24,
    Level25,
}

impl HGroupLevel {
    pub open spec fn spec_number(self) -> u8 {
        match self {
            HGroupLevel::Level1 => 1,
            HGroupLevel::Level2 => 2,
            HGroupLevel::Level3 => 3,
            HGroupLevel::Level4 => 4,
            HGroupLevel::Level5 => 5,
            HGroupLevel::Level6 => 6,
            HGroupLevel::Level7 => 7,
            HGroupLevel::Level8 => 8,
            HGroupLevel::Level9 => 9,
            HGroupLevel::Level10 => 10,
            HGroupLevel::Level11 => 11,
            HGroupLevel::Level12 => 12,
            HGroupLevel::Level13 => 13,
            HGroupLevel::Level14 => 14,
            HGroupLevel::Level15 => 15,
            HGroupLevel::Level16 => 16,
            HGroupLevel::Level17 => 17,
            HGroupLevel::Level18 => 18,
            HGroupLevel::Level19 => 19,
            HGroupLevel::Level20 => 20,
            HGroupLevel::Level21 => 21,
            HGroupLevel::Level22 => 22,
            HGroupLevel::Level23 => 23,
            HGroupLevel::Level24 => 24,
            HGroupLevel::Level25 => 25,
        }
    }

    /// The level's number, 1 through 25.
    #[verifier::when_used_as_spec(spec_number)]
    pub fn number(self) -> (n: u8)
        ensures
            n == self.spec_number(),
            1 <= n <= 25,
    {
        match self {
            HGroupLevel::Level1 => 1,
            HGroupLevel::Level2 => 2,
            HGroupLevel::Level3 => 3,
            HGroupLevel::Level4 => 4,
            HGroupLevel::Level5 => 5,
            HGroupLevel::Level6 => 6,
            HGroupLevel::Level7 => 7,
            HGroupLevel::Level8 => 8,
            HGroupLevel::Level9 => 9,
            HGroupLevel::Level10 => 10,
            HGroupLevel::Level11 => 11,
            HGroupLevel::Level12 => 12,
            HGroupLevel::Level13 => 13,
            HGroupLevel::Level14 => 14,
            HGroupLevel::Level15 => 15,
            HGroupLevel::Level16 => 16,
            HGroupLevel::Level17 => 17,
            HGroupLevel::Level18 => 18,
            HGroupLevel::Level19 => 19,
            HGroupLevel::Level20 => 20,
            HGroupLevel::Level21 => 21,
            HGroupLevel::Level22 => 22,
            HGroupLevel::Level23 => 23,
            HGroupLevel::Level24 => 24,
            HGroupLevel::Level25 => 25,
        }
    }

    /// The level with number `value`, or an error naming the number.
    pub fn try_from_number(value: u8) -> (r: Result<HGroupLevel, ParseHGroupProfileError>)
        ensures
            match r {
                Ok(level) => 1 <= value <= 25 && level.spec_number() == value,
                Err(e) => !(1 <= value <= 25) && e.0@ == decimal(value as nat),
            },
    {
        match value {
            1 => Ok(HGroupLevel::Level1),
            2 => Ok(HGroupLevel::Level2),
            3 => Ok(HGroupLevel::Level3),
            4 => Ok(HGroupLevel::Level4),
            5 => Ok(HGroupLevel::Level5),
            6 => Ok(HGroupLevel::Level6),
            7 => Ok(HGroupLevel::Level7),
            8 => Ok(HGroupLevel::Level8),
            9 => Ok(HGroupLevel::Level9),
            10 => Ok(HGroupLevel::Level10),
            11 => Ok(HGroupLevel::Level11),
            12 => Ok(HGroupLevel::Level12),
            13 => Ok(HGroupLevel::Level13),
            14 => Ok(HGroupLevel::Level14),
            15 => Ok(HGroupLevel::Level15),
            16 => Ok(HGroupLevel::Level16),
            17 => Ok(HGroupLevel::Level17),
            18 => Ok(HGroupLevel::Level18),
            19 => Ok(HGroupLevel::Level19),
            20 => Ok(HGroupLevel::Level20),
            21 => Ok(HGroupLevel::Level21),
            22 => Ok(HGroupLevel::Level22),
            23 => Ok(HGroupLevel::Level23),
            24 => Ok(HGroupLevel::Level24),
            25 => Ok(HGroupLevel::Level25),
            _ => Err(ParseHGroupProfileError(decimal_string(value))),
        }
    }

    /// The level's number in decimal.
    pub fn to_string(&self) -> (s: String)
        ensures
            s@ == decimal(self.spec_number() as nat),
    {
        decimal_string(self.number())
    }
}

/// The order of two levels: the order of their numbers.
pub open spec fn level_order(a: HGroupLevel, b: HGroupLevel) -> core::cmp::Ordering {
    if a.spec_number() < b.spec_number() {
        core::cmp::Ordering::Less
    } else if a.spec_number() > b.spec_number() {
        core::cmp::Ordering::Greater
    } else {
        core::cmp::Ordering::Equal
    }
}

impl PartialOrd for HGroupLevel {
    fn partial_cmp(&self, other: &Self) -> (r: Option<core::cmp::Ordering>) {
        let a = self.number();
        let b = other.number();
        if a < b {
            Some(core::cmp::Ordering::Less)
        } else if a > b {
            Some(core::cmp::Ordering::Greater)
        } else {
            Some(core::cmp::Ordering::Equal)
        }
    }
}

impl PartialOrdSpecImpl for HGroupLevel {
    open spec fn obeys_partial_cmp_spec() -> bool {
        true
    }

    open spec fn partial_cmp_spec(&self, other: &Self) -> Option<core::cmp::Ordering> {
        Some(level_order(*self, *other))
    }
}

/// One level comes before another exactly when its number is smaller, two
/// levels compare equal exactly when they are the same level, and every level
/// number lies between 1 and 25.
pub proof fn lemma_level_order(a: HGroupLevel, b: HGroupLevel)
    ensures
        1 <= a.spec_number() <= 25,
        level_order(a, b) == core::cmp::Ordering::Less <==> a.spec_number()
            < b.spec_number(),
        level_order(a, b) == core::cmp::Ordering::Equal <==> a == b,
        level_order(a, b) == core::cmp::Ordering::Greater <==> a.spec_number()
            > b.spec_number(),
{
}

/// Every level number names exactly one level.
pub proof fn lemma_level_number_injective(a: HGroupLevel, b: HGroupLevel)
    ensures
        a.spec_number() == b.spec_number() ==> a == b,
{
}

/// Cumulative H-Group conventions enabled for a game.
///
/// `Max` is the effective 26th cumulative level. It is spelled `max` in user
/// interfaces because that is the name used by H-Group players.
#[derive(Clone, Copy, Debug, PartialEq, Eq, Structural, Hash)]
pub enum HGroupProfile {
    Level(HGroupLevel),
    Max,
}

impl HGroupProfile {
    pub open spec fn spec_effective_level(self) -> u8 {
        match self {
            HGroupProfile::Level(level) => level.spec_number(),
            HGroupProfile::Max => 26,
        }
    }

    /// The cumulative level, with `Max` as 26.
    #[verifier::when_used_as_spec(spec_effective_level)]
    pub fn effective_level(self) -> (n: u8)
        ensures
            n == self.spec_effective_level(),
            1 <= n <= 26,
    {
        match self {
            HGroupProfile::Level(level) => level.number(),
            HGroupProfile::Max => 26,
        }
    }

    pub open spec fn spec_includes(self, required: HGroupLevel) -> bool {
        self.spec_effective_level() >= required.spec_number()
    }

    /// Whether the conventions of `required` are enabled.
    #[verifier::when_used_as_spec(spec_includes)]
    pub fn includes(self, required: HGroupLevel) -> (b: bool)
        ensures
            b == self.spec_includes(required),
    {
        self.effective_level() >= required.number()
    }

    /// The human-readable name: `level N` or `max`.
    pub fn to_string(&self) -> (s: String)
        ensures
            s@ == self.spec_text(),
    {
        proof {
            reveal_strlit("level ");
            reveal_strlit("max");
        }
        match self {
            HGroupProfile::Level(level) => {
                let mut s = "level ".to_owned();
                push_decimal(&mut s, level.number());
                s
            },
            HGroupProfile::Max => "max".to_owned(),
        }
    }

    pub open spec fn spec_text(self) -> Seq<char> {
        match self {
            HGroupProfile::Level(level) => seq!['l', 'e', 'v', 'e', 'l', ' '] + decimal(
                level.spec_number() as nat,
            ),
            HGroupProfile::Max => seq!['m', 'a', 'x'],
        }
    }
}

/// Profiles are cumulative: a profile that includes a level includes every
/// lower level, and `Max` includes every level.
pub proof fn lemma_profiles_are_cumulative(
    profile: HGroupProfile,
    required: HGroupLevel,
    lower: HGroupLevel,
)
    ensures
        profile.spec_includes(required) && lower.spec_number() <= required.spec_number()
            ==> profile.spec_includes(lower),
        HGroupProfile::Max.spec_includes(required),
        HGroupProfile::Level(required).spec_includes(required),
{
}

/// Error returned for an invalid cumulative H-Group profile; it holds the
/// rejected text.
#[derive(Clone, Debug, PartialEq, Eq)]
pub struct ParseHGroupProfileError(pub String);

impl ParseHGroupProfileError {
    pub open spec fn spec_text(self) -> Seq<char> {
        "invalid H-Group level "@ + debug_text(self.0@) + "; expected 1 through 25, or max"@
    }

    /// The error message, quoting the rejected text as `{:?}` does.
    pub fn to_string(&self) -> (s: String)
        ensures
            s@ == self.spec_text(),
    {
        let mut s = "invalid H-Group level ".to_owned();
        let quoted = debug_quoted(self.0.as_str());
        s.append(quoted.as_str());
        s.append("; expected 1 through 25, or max");
        s
    }
}

/// `bytes` are all ASCII decimal digits.
pub open spec fn all_digits(bytes: Seq<u8>) -> bool {
    forall|i: int| 0 <= i < bytes.len() ==> 48 <= #[trigger] bytes[i] <= 57
}

/// Value of a string of decimal digits.
pub open spec fn digits_value(bytes: Seq<u8>) -> nat
    decreases bytes.len(),
{
    if bytes.len() == 0 {
        0
    } else {
        digits_value(bytes.drop_last()) * 10 + (bytes.last() - 48) as nat
    }
}

/// The `u8` that `str::parse::<u8>` reads from `bytes`: an optional `+`
/// followed by at least one decimal digit, with a value below 256.
pub open spec fn spec_parse_u8(bytes: Seq<u8>) -> Option<u8> {
    let digits = if bytes.len() > 0 && bytes[0] == 43 {
        bytes.drop_first()
    } else {
        bytes
    };
    if digits.len() == 0 || !all_digits(digits) || digits_value(digits) > 255 {
        None
    } else {
        Some(digits_value(digits) as u8)
    }
}

/// Reads a `u8` the way `str::parse::<u8>` does.
pub fn parse_u8(bytes: &[u8]) -> (r: Option<u8>)
    ensures
        r == spec_parse_u8(bytes@),
{
    let start: usize = if bytes.len() > 0 && bytes[0] == 43 {
        1
    } else {
        0
    };
    let ghost digits = if bytes@.len() > 0 && bytes@[0] == 43 {
        bytes@.drop_first()
    } else {
        bytes@
    };
    proof {
        assert(digits =~= bytes@.subrange(start as int, bytes@.len() as int));
    }
    if start == bytes.len() {
        return None;
    }
    let mut value: u32 = 0;
    let mut i: usize = start;
    while i < bytes.len()
        invariant
            start <= i <= bytes@.len(),
            digits == bytes@.subrange(start as int, bytes@.len() as int),
            digits == (if bytes@.len() > 0 && bytes@[0] == 43 {
                bytes@.drop_first()
            } else {
                bytes@
            }),
            value == digits_value(bytes@.subrange(start as int, i as int)),
            value <= 255,
            all_digits(bytes@.subrange(start as int, i as int)),
        decreases bytes@.len() - i,
    {
        let b = bytes[i];
        proof {
            let prefix = bytes@.subrange(start as int, i + 1);
            assert(prefix.drop_last() =~= bytes@.subrange(start as int, i as int));
            assert(prefix.last() == b);
        }
        if b < 48 || b > 57 {
            proof {
                assert(digits[i - start] == b);
            }
            return None;
        }
        let next = value * 10 + (b - 48) as u32;
        if next > 255 {
            proof {
                assert(digits.subrange(0, (i + 1 - start) as int) =~= bytes@.subrange(
                    start as int,
                    i + 1,
                ));
                if all_digits(digits) {
                    lemma_digits_value_prefix_bound(digits, (i + 1 - start) as int);
                }
            }
            return None;
        }
        value = next;
        i = i + 1;
    }
    proof {
        assert(bytes@.subrange(start as int, i as int) =~= digits);
    }
    Some(value as u8)
}

proof fn lemma_digits_value_prefix_bound(digits: Seq<u8>, k: int)
    requires
        0 <= k <= digits.len(),
        all_digits(digits),
    ensures
        digits_value(digits.subrange(0, k)) <= digits_value(digits),
    decreases digits.len(),
{
    if k < digits.len() {
        let shorter = digits.drop_last();
        assert(shorter.subrange(0, k) =~= digits.subrange(0, k));
        assert(all_digits(shorter)) by {
            assert forall|i: int| 0 <= i < shorter.len() implies 48 <= #[trigger] shorter[i] <= 57 by {
                assert(shorter[i] == digits[i]);
            }
        }
        lemma_digits_value_prefix_bound(shorter, k);
        assert(48 <= digits.last() <= 57);
    } else {
        assert(digits.subrange(0, k) =~= digits);
    }
}

/// Whether `bytes` spell the ASCII keyword `word`.
pub fn is_keyword(bytes: &[u8], word: &[u8]) -> (b: bool)
    ensures
        b == (bytes@ == word@),
{
    if bytes.len() != word.len() {
        return false;
    }
    let mut i: usize = 0;
    while i < bytes.len()
        invariant
            bytes@.len() == word@.len(),
            i <= bytes@.len(),
            forall|k: int| 0 <= k < i ==> bytes@[k] == word@[k],
        decreases bytes@.len() - i,
    {
        if bytes[i] != word[i] {
            return false;
        }
        i = i + 1;
    }
    proof {
        assert(bytes@ =~= word@);
    }
    true
}

/// The bytes `m`, `a`, `x`.
pub open spec fn max_keyword() -> Seq<u8> {
    seq![109u8, 97u8, 120u8]
}

/// The bytes `n`, `o`, `n`, `e`.
pub open spec fn none_keyword() -> Seq<u8> {
    seq![110u8, 111u8, 110u8, 101u8]
}

/// The bytes `h-group:`.
pub open spec fn h_group_prefix() -> Seq<u8> {
    seq![104u8, 45u8, 103u8, 114u8, 111u8, 117u8, 112u8, 58u8]
}

/// What parsing `value` as a profile gives: `max` is `Max`; a level number
/// 1 through 25, as `str::parse::<u8>` reads it, is that level; text that is
/// not a number is rejected with itself, and a number out of range with its
/// decimal form.
pub open spec fn profile_parsed(value: &str, r: Result<HGroupProfile, ParseHGroupProfileError>) -> bool {
    if value.spec_bytes() == max_keyword() {
        r == Ok::<HGroupProfile, ParseHGroupProfileError>(HGroupProfile::Max)
    } else {
        match spec_parse_u8(value.spec_bytes()) {
            None => r matches Err(e) && e.0@ == value@,
            Some(n) => if 1 <= n <= 25 {
                r matches Ok(HGroupProfile::Level(level)) && level.spec_number() == n
            } else {
                r matches Err(e) && e.0@ == decimal(n as nat)
            },
        }
    }
}

/// Parses a cumulative profile: `max`, or a level number 1 through 25 as
/// `str::parse::<u8>` reads it. Text that is not a number is rejected with
/// itself; a number out of range is rejected with its decimal form.
pub fn parse_profile(value: &str) -> (r: Result<HGroupProfile, ParseHGroupProfileError>)
    ensures
        profile_parsed(value, r),
{
    let bytes = value.as_bytes();
    let max_word: [u8; 3] = [109u8, 97u8, 120u8];
    proof {
        assert(max_word@ =~= max_keyword());
    }
    if is_keyword(bytes, &max_word) {
        return Ok(HGroupProfile::Max);
    }
    match parse_u8(bytes) {
        None => Err(ParseHGroupProfileError(value.to_owned())),
        Some(number) => match HGroupLevel::try_from_number(number) {
            Ok(level) => Ok(HGroupProfile::Level(level)),
            Err(e) => Err(e),
        },
    }
}

/// Convention-specific reasons a convention admitted an action.
#[derive(Clone, Copy, Debug, PartialEq, Eq, Structural, Hash)]
pub enum ConventionActionReason {
    ConventionFree,
    Connection,
    RequiredDiscard,
    PromisedPlay,
    PlayClue,
    SaveClue,
    OtherClue,
    Discard,
    Fallback,
}

impl ConventionActionReason {
    /// The default reason is `Fallback`.
    pub fn default() -> (r: ConventionActionReason)
        ensures
            r == ConventionActionReason::Fallback,
    {
        ConventionActionReason::Fallback
    }
}

/// Semantic reason a legal action was excluded by the selected convention.
#[derive(Clone, Copy, Debug, PartialEq, Eq, Structural, Hash)]
pub enum ConventionRejectionReason {
    NoNewInformation,
    NoFocus,
    RepeatsKnownIdentity,
    NoConventionMeaning,
    UnsafeConnection,
    RedundantOutcome,
}

/// Convention frameworks built into this engine.
///
/// Keeping this registry closed makes command-line configuration, persisted
/// analysis requests, and match dispatch exhaustive and reproducible.
#[derive(Clone, Copy, Debug, PartialEq, Eq, Structural, Hash)]
#[non_exhaustive]
pub enum SupportedConvention {
    /// Direct clues and card counts only.
    NoConvention,
    /// H-Group with one explicitly selected cumulative profile.
    HGroup(HGroupProfile),
}

impl Default for SupportedConvention {
    fn default() -> (c: Self)
        ensures
            c == SupportedConvention::NoConvention,
    {
        SupportedConvention::NoConvention
    }
}

impl SupportedConvention {
    pub open spec fn spec_id(self) -> Seq<char> {
        match self {
            SupportedConvention::NoConvention => seq!['n', 'o', 'n', 'e'],
            SupportedConvention::HGroup(_) => seq!['h', '-', 'g', 'r', 'o', 'u', 'p'],
        }
    }

    /// The framework identifier: `none` or `h-group`.
    pub fn id(self) -> (id: &'static str)
        ensures
            id@ == self.spec_id(),
    {
        proof {
            reveal_strlit("none");
            reveal_strlit("h-group");
        }
        match self {
            SupportedConvention::NoConvention => "none",
            SupportedConvention::HGroup(_) => "h-group",
        }
    }

    /// The selected H-Group profile, if any.
    pub fn profile(self) -> (p: Option<HGroupProfile>)
        ensures
            p == match self {
                SupportedConvention::NoConvention => None,
                SupportedConvention::HGroup(profile) => Some(profile),
            },
    {
        match self {
            SupportedConvention::NoConvention => None,
            SupportedConvention::HGroup(profile) => Some(profile),
        }
    }

    /// The documentation revision the framework implements, if versioned.
    pub fn ruleset_revision(self) -> (r: Option<&'static str>)
        ensures
            self is NoConvention ==> r is None,
            self is HGroup ==> r == Some(H_GROUP_RULESET_REVISION),
    {
        match self {
            SupportedConvention::NoConvention => None,
            SupportedConvention::HGroup(_) => Some(H_GROUP_RULESET_REVISION),
        }
    }

    /// The human-readable name: `none`, or `h-group (<profile>)`.
    pub fn to_string(&self) -> (s: String)
        ensures
            s@ == match *self {
                SupportedConvention::NoConvention => self.spec_id(),
                SupportedConvention::HGroup(profile) => self.spec_id() + seq![' ', '('] + profile.spec_text()
                    + seq![')'],
            },
    {
        proof {
            reveal_strlit(" (");
            reveal_strlit(")");
        }
        match self {
            SupportedConvention::NoConvention => self.id().to_owned(),
            SupportedConvention::HGroup(profile) => {
                let mut s = self.id().to_owned();
                s.append(" (");
                let text = profile.to_string();
                s.append(text.as_str());
                s.append(")");
                s
            },
        }
    }
}

/// Error returned when a convention identifier is not in the built-in
/// registry.
#[derive(Clone, Debug, PartialEq, Eq)]
pub enum ParseConventionError {
    Unknown(String),
    InvalidHGroupProfile(ParseHGroupProfileError),
}

impl ParseConventionError {
    /// The error message: the rejected identifier quoted as `{:?}` does,
    /// or the profile error.
    pub fn to_string(&self) -> (s: String)
        ensures
            s@ == match self {
                ParseConventionError::Unknown(value) => "unknown convention "@ + debug_text(value@)
                    + "; expected none or h-group:<1-25|max>"@,
                ParseConventionError::InvalidHGroupProfile(error) => error.spec_text(),
            },
    {
        match self {
            ParseConventionError::Unknown(value) => {
                let mut s = "unknown convention ".to_owned();
                let quoted = debug_quoted(value.as_str());
                s.append(quoted.as_str());
                s.append("; expected none or h-group:<1-25|max>");
                s
            },
            ParseConventionError::InvalidHGroupProfile(error) => error.to_string(),
        }
    }
}

proof fn lemma_ascii_prefix_boundary(bytes: Seq<u8>, k: int)
    requires
        valid_utf8(bytes),
        0 <= k <= bytes.len(),
        forall|i: int| 0 <= i < k ==> #[trigger] bytes[i] <= 0x7f,
    ensures
        is_char_boundary(bytes, k),
    decreases k,
{
    if k > 0 {
        assert(length_of_first_scalar(bytes) == 1);
        let rest = pop_first_scalar(bytes);
        assert(rest =~= bytes.subrange(1, bytes.len() as int));
        assert forall|i: int| 0 <= i < k - 1 implies #[trigger] rest[i] <= 0x7f by {
            assert(rest[i] == bytes[i + 1]);
        }
        lemma_ascii_prefix_boundary(rest, k - 1);
    }
}

/// What parsing `value` as a convention identifier gives: `none`, or
/// `h-group:` followed by a profile, read as `profile_parsed` reads it; any
/// other text is `Unknown`, holding the text.
pub open spec fn convention_parsed(
    value: &str,
    r: Result<SupportedConvention, ParseConventionError>,
) -> bool {
    let bytes = value.spec_bytes();
    if bytes == none_keyword() {
        r == Ok::<SupportedConvention, ParseConventionError>(SupportedConvention::NoConvention)
    } else if bytes.len() >= 8 && bytes.subrange(0, 8) == h_group_prefix() {
        let rest = bytes.subrange(8, bytes.len() as int);
        if rest == max_keyword() {
            r == Ok::<SupportedConvention, ParseConventionError>(
                SupportedConvention::HGroup(HGroupProfile::Max),
            )
        } else {
            match spec_parse_u8(rest) {
                None => r matches Err(ParseConventionError::InvalidHGroupProfile(e))
                    && encode_utf8(e.0@) == rest,
                Some(n) => if 1 <= n <= 25 {
                    r matches Ok(SupportedConvention::HGroup(HGroupProfile::Level(level)))
                        && level.spec_number() == n
                } else {
                    r matches Err(ParseConventionError::InvalidHGroupProfile(e)) && e.0@
                        == decimal(n as nat)
                },
            }
        }
    } else {
        r matches Err(ParseConventionError::Unknown(s)) && s@ == value@
    }
}

/// Parses a convention identifier: `none`, or `h-group:` followed by a
/// profile. Any other text is `Unknown`, holding the text.
pub fn parse_convention(value: &str) -> (r: Result<SupportedConvention, ParseConventionError>)
    ensures
        convention_parsed(value, r),
{
    let bytes = value.as_bytes();
    let none_word: [u8; 4] = [110u8, 111u8, 110u8, 101u8];
    let prefix: [u8; 8] = [104u8, 45u8, 103u8, 114u8, 111u8, 117u8, 112u8, 58u8];
    proof {
        assert(none_word@ =~= none_keyword());
        assert(prefix@ =~= h_group_prefix());
    }
    if is_keyword(bytes, &none_word) {
        return Ok(SupportedConvention::NoConvention);
    }
    if bytes.len() >= 8 && is_keyword(slice_prefix(bytes, 8), &prefix) {
        proof {
            lemma_ascii_prefix_boundary(value.spec_bytes(), 8);
        }
        let (_, rest) = value.split_at(8);
        return match parse_profile(rest) {
            Ok(profile) => Ok(SupportedConvention::HGroup(profile)),
            Err(e) => Err(ParseConventionError::InvalidHGroupProfile(e)),
        };
    }
    Err(ParseConventionError::Unknown(value.to_owned()))
}

impl core::str::FromStr for HGroupProfile {
    type Err = ParseHGroupProfileError;

    fn from_str(value: &str) -> (r: Result<Self, Self::Err>)
        ensures
            profile_parsed(value, r),
    {
        parse_profile(value)
    }
}

impl core::str::FromStr for SupportedConvention {
    type Err = ParseConventionError;

    fn from_str(value: &str) -> (r: Result<Self, Self::Err>)
        ensures
            convention_parsed(value, r),
    {
        parse_convention(value)
    }
}

/// The first `n` bytes of `bytes`.
fn slice_prefix(bytes: &[u8], n: usize) -> (p: &[u8])
    requires
        n <= bytes@.len(),
    ensures
        p@ == bytes@.subrange(0, n as int),
{
    vstd::slice::slice_subrange(bytes, 0, n)
}

} // verus!
