//! Decoders that turn raw name bytes into text, and the choice among them.
use vstd::prelude::*;
use vstd::utf8::{decode_utf8, valid_utf8};
use crate::text::{
    chars_of, decimal_of, opt_chars, push_decimal, string_from_chars, utf8_decode,
    utf8_decode_lossy, utf8_text_of,
};
use encoding_rs::Encoding;

verus! {

/// Declares `encoding_rs::Encoding`, held opaquely by legacy decoders.
#[verifier::external_type_specification]
#[verifier::external_body]
pub struct ExEncoding(encoding_rs::Encoding);

/// Names what `compose_from_hfs_nfd` makes of a string.
pub uninterp spec fn hfs_nfc_of(s: Seq<char>) -> Seq<char>;

/// Names the text and the malformed-input flag `Encoding::decode` returns.
pub uninterp spec fn encoding_decode_of(encoding: &'static Encoding, input: Seq<u8>) -> (Seq<char>, bool);

/// Names the encoding `Encoding::for_label` finds for a label.
pub uninterp spec fn encoding_for_label_of(label: Seq<char>) -> Option<&'static Encoding>;

/// Names the canonical name `Encoding::name` gives.
pub uninterp spec fn encoding_name_of(encoding: &'static Encoding) -> Seq<char>;

/// Names the encoding `codepage::to_encoding` gives for a Windows code page.
pub uninterp spec fn codepage_encoding_of(codepage: u16) -> Option<&'static Encoding>;

/// Names the character that the `oem_cp` table of a code page gives a byte
/// (`TableType::decode_char_checked`).
pub uninterp spec fn oem_char_of(codepage: u16, byte: u8) -> Option<char>;

/// Names the OEM code page `locale_name_code_page::get_codepage` gives a locale.
pub uninterp spec fn locale_oem_codepage_of(locale: Seq<char>) -> Option<u16>;

/// Names the first capture group of the first match of a pattern, as the
/// `regex` crate finds it (`None` for an invalid pattern or no match).
pub uninterp spec fn regex_first_group_of(pattern: Seq<char>, text: Seq<char>) -> Option<Seq<char>>;

/// Names whether a pattern matches somewhere in a text, as the `regex` crate
/// decides it (`false` for an invalid pattern).
pub uninterp spec fn regex_is_match_of(pattern: Seq<char>, text: Seq<char>) -> bool;

/// The code pages that `oem_cp::code_table::DECODING_TABLE_CP_MAP` holds.
pub open spec fn is_oem_table_codepage(cp: u16) -> bool {
    cp == 437 || cp == 720 || cp == 737 || cp == 775 || cp == 850 || cp == 852 || cp == 855 || cp
        == 857 || cp == 858 || cp == 860 || cp == 861 || cp == 862 || cp == 863 || cp == 864 || cp
        == 865 || cp == 866 || cp == 869 || cp == 874
}

/// Relies on `hfs_nfd::compose_from_hfs_nfd`.
#[verifier::external_body]
fn compose_nfc(s: &str) -> (r: String)
    ensures
        r@ == hfs_nfc_of(s@),
{
    hfs_nfd::compose_from_hfs_nfd(s)
}

/// Relies on `Encoding::decode`: the text, and whether malformed sequences
/// were replaced.
#[verifier::external_body]
fn decode_with_encoding(encoding: &'static Encoding, input: &[u8]) -> (r: (String, bool))
    ensures
        (r.0@, r.1) == encoding_decode_of(encoding, input@),
{
    let (text, _, malformed) = encoding.decode(input);
    (text.into_owned(), malformed)
}

/// Relies on `Encoding::for_label`.
#[verifier::external_body]
fn encoding_for_label(label: &str) -> (r: Option<&'static Encoding>)
    ensures
        r == encoding_for_label_of(label@),
{
    Encoding::for_label(label.as_bytes())
}

/// Relies on `Encoding::name`.
#[verifier::external_body]
fn encoding_name(encoding: &'static Encoding) -> (r: String)
    ensures
        r@ == encoding_name_of(encoding),
{
    encoding.name().to_string()
}

/// Relies on `codepage::to_encoding`.
#[verifier::external_body]
fn encoding_for_codepage(codepage: u16) -> (r: Option<&'static Encoding>)
    ensures
        r == codepage_encoding_of(codepage),
{
    codepage::to_encoding(codepage)
}

/// Relies on `DECODING_TABLE_CP_MAP` of `oem_cp`: whether it has a table for
/// the code page.
#[verifier::external_body]
fn oem_table_available(codepage: u16) -> (r: bool)
    ensures
        r == is_oem_table_codepage(codepage),
{
    oem_cp::code_table::DECODING_TABLE_CP_MAP.contains_key(&codepage)
}

/// Relies on `DECODING_TABLE_CP_MAP.get` and `TableType::decode_string_checked`
/// of `oem_cp`: no table gives `None`; otherwise each byte is decoded on its
/// own, and the result is `None` if one has no character.
#[verifier::external_body]
fn oem_decode_checked(codepage: u16, input: &[u8]) -> (r: Option<String>)
    ensures
        r is Some <==> is_oem_table_codepage(codepage) && forall|i: int|
            0 <= i < input@.len() ==> (#[trigger] oem_char_of(codepage, input@[i])) is Some,
        r matches Some(s) ==> s@.len() == input@.len() && forall|i: int|
            0 <= i < input@.len() ==> Some(#[trigger] s@[i]) == oem_char_of(codepage, input@[i]),
{
    oem_cp::code_table::DECODING_TABLE_CP_MAP.get(&codepage)?.decode_string_checked(input)
}

/// Relies on indexing `DECODING_TABLE_CP_MAP` of `oem_cp` (it panics without a
/// table, hence the requirement) and on `TableType::decode_string_lossy`:
/// each byte is decoded on its own, U+FFFD standing for those without a
/// character.
#[verifier::external_body]
fn oem_decode_lossy(codepage: u16, input: &[u8]) -> (r: String)
    requires
        is_oem_table_codepage(codepage),
    ensures
        r@.len() == input@.len(),
        forall|i: int|
            0 <= i < input@.len() ==> #[trigger] r@[i] == match oem_char_of(codepage, input@[i]) {
                Some(c) => c,
                None => '\u{FFFD}',
            },
{
    oem_cp::code_table::DECODING_TABLE_CP_MAP[&codepage].decode_string_lossy(input)
}

/// Relies on `locale_name_code_page::get_codepage`, keeping the OEM code page.
#[verifier::external_body]
fn oem_codepage_for_locale(locale: &str) -> (r: Option<u16>)
    ensures
        r == locale_oem_codepage_of(locale@),
{
    locale_name_code_page::get_codepage(locale).map(|codepage| codepage.oem)
}

/// Relies on `locale_config::Locale::user_default`; the result depends on the
/// environment, so nothing is promised of it.
#[verifier::external_body]
fn user_default_locale() -> (r: String) {
    locale_config::Locale::user_default().to_string()
}

/// Relies on `regex::Regex`: the first capture group of the first match.
#[verifier::external_body]
fn regex_first_group(pattern: &str, text: &str) -> (r: Option<String>)
    ensures
        r matches Some(s) ==> regex_first_group_of(pattern@, text@) == Some(s@),
        r is None <==> regex_first_group_of(pattern@, text@) is None,
{
    let captures = regex::Regex::new(pattern).ok()?.captures(text)?;
    Some(captures.get(1)?.as_str().to_string())
}

/// Relies on `regex::Regex::is_match`.
#[verifier::external_body]
fn regex_is_match(pattern: &str, text: &str) -> (r: bool)
    ensures
        r == regex_is_match_of(pattern@, text@),
{
    match regex::Regex::new(pattern) {
        Ok(re) => re.is_match(text),
        Err(_) => false,
    }
}

/// Finds a code page number in names such as `CP850`, `OEM 437` or `IBM866`.
pub const OEM_CP_PATTERN: &'static str = "(?i)(?:CP|OEM ?|IBM)(\\d+)";

/// Other names of code page 437.
pub const CP437_PATTERN: &'static str = "(?i)(OEM[-_]US|PC-8|DOS[-_ ]?Latin[-_ ]?US)";

/// The code page used when nothing better is known.
pub const FALLBACK_CODEPAGE: u16 = 437;

/// UTF-8 decoder that also composes HFS+-style decomposed names into NFC.
#[derive(Clone, Copy, Debug)]
pub struct UTF8NFCDecoder {}

/// ASCII decoder: only bytes up to 0x7F are characters.
#[derive(Clone, Copy, Debug)]
pub struct ASCIIDecoder {}

/// Single-byte OEM code page decoder backed by the tables of `oem_cp`.
#[derive(Clone, Copy, Debug)]
pub struct OEMCPDecoder {
    pub codepage: u16,
}

/// Decoder for the multi-byte and Windows code pages of `encoding_rs`.
#[derive(Clone, Copy, Debug)]
pub struct LegacyEncodingDecoder {
    pub decoder: &'static Encoding,
}

/// A decoder of name bytes: one of a closed set of variants.
#[derive(Clone, Copy, Debug)]
pub enum IDecoder {
    UTF8NFC(UTF8NFCDecoder),
    ASCII(ASCIIDecoder),
    OEMCP(OEMCPDecoder),
    Legacy(LegacyEncodingDecoder),
}

/// Every byte is at most 0x7F.
pub open spec fn all_ascii(input: Seq<u8>) -> bool {
    forall|i: int| 0 <= i < input.len() ==> #[trigger] input[i] < 128
}

/// The ASCII characters of the bytes, U+FFFD for the others.
pub open spec fn ascii_lossy_of(input: Seq<u8>) -> Seq<char> {
    Seq::new(input.len(), |i: int| if input[i] < 128 { input[i] as char } else { '\u{FFFD}' })
}

pub open spec fn oem_decodable(codepage: u16, input: Seq<u8>) -> bool {
    is_oem_table_codepage(codepage) && forall|i: int|
        0 <= i < input.len() ==> (#[trigger] oem_char_of(codepage, input[i])) is Some
}

pub open spec fn oem_text_of(codepage: u16, input: Seq<u8>) -> Seq<char> {
    Seq::new(
        input.len(),
        |i: int|
            match oem_char_of(codepage, input[i]) {
                Some(c) => c,
                None => '\u{FFFD}',
            },
    )
}

impl IDecoder {
    /// Whether the decoder can decode `input` without substituting anything.
    pub open spec fn spec_can_decode(&self, input: Seq<u8>) -> bool {
        match self {
            IDecoder::UTF8NFC(_) => valid_utf8(input),
            IDecoder::ASCII(_) => all_ascii(input),
            IDecoder::OEMCP(d) => oem_decodable(d.codepage, input),
            IDecoder::Legacy(d) => !encoding_decode_of(d.decoder, input).1,
        }
    }

    /// The text the decoder makes of `input`, substituting where it must.
    pub open spec fn spec_lossy(&self, input: Seq<u8>) -> Seq<char> {
        match self {
            IDecoder::UTF8NFC(_) => hfs_nfc_of(utf8_text_of(input)),
            IDecoder::ASCII(_) => ascii_lossy_of(input),
            IDecoder::OEMCP(d) => if is_oem_table_codepage(d.codepage) {
                oem_text_of(d.codepage, input)
            } else {
                Seq::empty()
            },
            IDecoder::Legacy(d) => encoding_decode_of(d.decoder, input).0,
        }
    }

    /// The text when decoding needs no substitution.
    pub open spec fn spec_lossless(&self, input: Seq<u8>) -> Option<Seq<char>> {
        if self.spec_can_decode(input) {
            Some(
                match self {
                    IDecoder::UTF8NFC(_) => hfs_nfc_of(decode_utf8(input)),
                    _ => self.spec_lossy(input),
                },
            )
        } else {
            None
        }
    }

    pub open spec fn spec_encoding_name(&self) -> Seq<char> {
        match self {
            IDecoder::UTF8NFC(_) => seq!['U', 'T', 'F', '-', '8'],
            IDecoder::ASCII(_) => seq!['A', 'S', 'C', 'I', 'I'],
            IDecoder::OEMCP(d) => seq!['C', 'P'] + decimal_of(d.codepage as nat),
            IDecoder::Legacy(d) => encoding_name_of(d.decoder),
        }
    }
}

impl UTF8NFCDecoder {
    /// Decodes valid UTF-8 and composes it into NFC; `None` if invalid.
    pub fn to_string_lossless(&self, input: &[u8]) -> (r: Option<String>)
        ensures
            opt_chars(r) == IDecoder::UTF8NFC(UTF8NFCDecoder {  }).spec_lossless(input@),
    {
        match utf8_decode(input) {
            Some(s) => Some(compose_nfc(s.as_str())),
            None => None,
        }
    }

    /// Decodes with U+FFFD for invalid sequences, then composes into NFC.
    pub fn to_string_lossy(&self, input: &[u8]) -> (r: String)
        ensures
            r@ == hfs_nfc_of(utf8_text_of(input@)),
    {
        let s = utf8_decode_lossy(input);
        compose_nfc(s.as_str())
    }

    /// Whether `input` is valid UTF-8.
    pub fn can_decode(&self, input: &[u8]) -> (r: bool)
        ensures
            r == valid_utf8(input@),
    {
        utf8_decode(input).is_some()
    }

    pub fn encoding_name(&self) -> (r: String)
        ensures
            r@ == IDecoder::UTF8NFC(UTF8NFCDecoder {  }).spec_encoding_name(),
    {
        let r = "UTF-8".to_owned();
        proof {
            reveal_strlit("UTF-8");
        }
        assert(r@ =~= seq!['U', 'T', 'F', '-', '8']);
        r
    }
}

impl ASCIIDecoder {
    /// The characters of `input` if every byte is ASCII, else `None`.
    pub fn to_string_lossless(&self, input: &[u8]) -> (r: Option<String>)
        ensures
            opt_chars(r) == IDecoder::ASCII(ASCIIDecoder {  }).spec_lossless(input@),
    {
        if !self.can_decode(input) {
            return None;
        }
        Some(self.to_string_lossy(input))
    }

    /// The characters of `input`, U+FFFD standing for bytes above 0x7F.
    pub fn to_string_lossy(&self, input: &[u8]) -> (r: String)
        ensures
            r@ == ascii_lossy_of(input@),
    {
        let mut chars: Vec<char> = Vec::with_capacity(input.len());
        let mut i: usize = 0;
        while i < input.len()
            invariant
                i <= input@.len(),
                chars@ == ascii_lossy_of(input@).subrange(0, i as int),
            decreases input@.len() - i,
        {
            let b = input[i];
            if b < 128 {
                chars.push(b as char);
            } else {
                chars.push('\u{FFFD}');
            }
            i = i + 1;
            assert(chars@ =~= ascii_lossy_of(input@).subrange(0, i as int));
        }
        assert(chars@ =~= ascii_lossy_of(input@));
        string_from_chars(&chars)
    }

    /// Whether every byte of `input` is ASCII.
    pub fn can_decode(&self, input: &[u8]) -> (r: bool)
        ensures
            r == all_ascii(input@),
    {
        let mut i: usize = 0;
        while i < input.len()
            invariant
                i <= input@.len(),
                forall|j: int| 0 <= j < i ==> #[trigger] input@[j] < 128,
            decreases input@.len() - i,
        {
            if input[i] >= 128 {
                return false;
            }
            i = i + 1;
        }
        true
    }

    pub fn encoding_name(&self) -> (r: String)
        ensures
            r@ == IDecoder::ASCII(ASCIIDecoder {  }).spec_encoding_name(),
    {
        let r = "ASCII".to_owned();
        proof {
            reveal_strlit("ASCII");
        }
        assert(r@ =~= seq!['A', 'S', 'C', 'I', 'I']);
        r
    }
}

impl OEMCPDecoder {
    /// The decoder for `codepage`, if `oem_cp` has a table for it.
    pub fn from_codepage(codepage: u16) -> (r: Option<Self>)
        ensures
            r is Some <==> is_oem_table_codepage(codepage),
            r matches Some(d) ==> d.codepage == codepage,
    {
        if oem_table_available(codepage) {
            Some(OEMCPDecoder { codepage })
        } else {
            None
        }
    }

    /// The decoder for code page 437.
    pub fn fallback() -> (r: Self)
        ensures
            r.codepage == FALLBACK_CODEPAGE,
    {
        OEMCPDecoder { codepage: FALLBACK_CODEPAGE }
    }

    pub fn to_string_lossless(&self, input: &[u8]) -> (r: Option<String>)
        ensures
            opt_chars(r) == IDecoder::OEMCP(OEMCPDecoder { codepage: self.codepage }).spec_lossless(
                input@,
            ),
    {
        let r = oem_decode_checked(self.codepage, input);
        if let Some(s) = &r {
            assert(s@ =~= oem_text_of(self.codepage, input@));
        }
        r
    }

    pub fn to_string_lossy(&self, input: &[u8]) -> (r: String)
        ensures
            r@ == IDecoder::OEMCP(OEMCPDecoder { codepage: self.codepage }).spec_lossy(input@),
    {
        if oem_table_available(self.codepage) {
            let r = oem_decode_lossy(self.codepage, input);
            assert(r@ =~= oem_text_of(self.codepage, input@));
            r
        } else {
            String::new()
        }
    }

    pub fn can_decode(&self, input: &[u8]) -> (r: bool)
        ensures
            r == oem_decodable(self.codepage, input@),
    {
        oem_decode_checked(self.codepage, input).is_some()
    }

    /// `CP` followed by the code page number.
    pub fn encoding_name(&self) -> (r: String)
        ensures
            r@ == IDecoder::OEMCP(OEMCPDecoder { codepage: self.codepage }).spec_encoding_name(),
    {
        let mut chars: Vec<char> = Vec::new();
        chars.push('C');
        chars.push('P');
        push_decimal(&mut chars, self.codepage as u128);
        assert(chars@ =~= seq!['C', 'P'] + decimal_of(self.codepage as nat));
        string_from_chars(&chars)
    }
}

impl LegacyEncodingDecoder {
    pub fn to_string_lossless(&self, input: &[u8]) -> (r: Option<String>)
        ensures
            opt_chars(r) == IDecoder::Legacy(LegacyEncodingDecoder { decoder: self.decoder }).spec_lossless(
                input@,
            ),
    {
        let (text, malformed) = decode_with_encoding(self.decoder, input);
        if malformed {
            return None;
        }
        Some(text)
    }

    pub fn to_string_lossy(&self, input: &[u8]) -> (r: String)
        ensures
            r@ == encoding_decode_of(self.decoder, input@).0,
    {
        decode_with_encoding(self.decoder, input).0
    }

    pub fn can_decode(&self, input: &[u8]) -> (r: bool)
        ensures
            r == !encoding_decode_of(self.decoder, input@).1,
    {
        !decode_with_encoding(self.decoder, input).1
    }

    pub fn encoding_name(&self) -> (r: String)
        ensures
            r@ == encoding_name_of(self.decoder),
    {
        encoding_name(self.decoder)
    }
}

/// The value of a string of ASCII digits, when it fits in 16 bits.
pub open spec fn is_ascii_digit(c: char) -> bool {
    '0' <= c && c <= '9'
}

pub open spec fn digits_value(s: Seq<char>) -> nat
    decreases s.len(),
{
    if s.len() == 0 {
        0
    } else {
        digits_value(s.drop_last()) * 10 + (s.last() as nat - '0' as nat) as nat
    }
}

/// What `str::parse::<u16>` accepts of a run of digits: one or more ASCII
/// digits whose value fits in 16 bits.
pub open spec fn spec_parse_u16(s: Seq<char>) -> Option<u16> {
    if s.len() > 0 && (forall|i: int| 0 <= i < s.len() ==> is_ascii_digit(#[trigger] s[i]))
        && digits_value(s) <= u16::MAX {
        Some(digits_value(s) as u16)
    } else {
        None
    }
}

/// Parses a run of ASCII digits into a code page number.
pub fn parse_u16(s: &str) -> (r: Option<u16>)
    ensures
        r == spec_parse_u16(s@),
{
    let chars = chars_of(s);
    if chars.len() == 0 {
        return None;
    }
    let mut value: u32 = 0;
    let mut i: usize = 0;
    while i < chars.len()
        invariant
            i <= chars@.len(),
            chars@ == s@,
            forall|j: int| 0 <= j < i ==> is_ascii_digit(#[trigger] chars@[j]),
            value as nat == if digits_value(chars@.subrange(0, i as int)) < 65536 {
                digits_value(chars@.subrange(0, i as int))
            } else {
                65536
            },
        decreases chars@.len() - i,
    {
        let c = chars[i];
        if !('0' <= c && c <= '9') {
            return None;
        }
        let d = (c as u32) - ('0' as u32);
        let ghost prefix = chars@.subrange(0, i as int);
        let ghost next = chars@.subrange(0, i + 1);
        assert(next.drop_last() =~= prefix);
        assert(next.last() == c);
        let v = value * 10 + d;
        value = if v < 65536 { v } else { 65536 };
        assert(digits_value(next) == digits_value(prefix) * 10 + d);
        proof {
            let x = digits_value(prefix);
            if x >= 65536 {
                assert(x * 10 + d >= 65536) by (nonlinear_arith)
                    requires x >= 65536;
            }
        }
        i = i + 1;
    }
    assert(chars@.subrange(0, i as int) =~= s@);
    if value <= 65535 {
        Some(value as u16)
    } else {
        None
    }
}

/// The decoder `from_encoding_name` gives for a name.
pub open spec fn spec_decoder_for_name(name: Seq<char>) -> Option<IDecoder> {
    match encoding_for_label_of(name) {
        Some(e) => Some(IDecoder::Legacy(LegacyEncodingDecoder { decoder: e })),
        None => {
            let cp = match regex_first_group_of(OEM_CP_PATTERN@, name) {
                Some(digits) => spec_parse_u16(digits),
                None => None,
            };
            if cp is Some && is_oem_table_codepage(cp->0) {
                Some(IDecoder::OEMCP(OEMCPDecoder { codepage: cp->0 }))
            } else if regex_is_match_of(CP437_PATTERN@, name) {
                Some(IDecoder::OEMCP(OEMCPDecoder { codepage: FALLBACK_CODEPAGE }))
            } else {
                None
            }
        },
    }
}

/// The decoder `from_locale_name` gives for a locale.
pub open spec fn spec_decoder_for_locale(locale: Seq<char>) -> IDecoder {
    match locale_oem_codepage_of(locale) {
        Some(cp) => match codepage_encoding_of(cp) {
            Some(e) => IDecoder::Legacy(LegacyEncodingDecoder { decoder: e }),
            None => if is_oem_table_codepage(cp) {
                IDecoder::OEMCP(OEMCPDecoder { codepage: cp })
            } else {
                IDecoder::OEMCP(OEMCPDecoder { codepage: FALLBACK_CODEPAGE })
            },
        },
        None => IDecoder::OEMCP(OEMCPDecoder { codepage: FALLBACK_CODEPAGE }),
    }
}

impl IDecoder {
    /// The UTF-8 (NFC) decoder.
    pub fn utf8() -> (r: IDecoder)
        ensures
            r is UTF8NFC,
    {
        IDecoder::UTF8NFC(UTF8NFCDecoder {  })
    }

    /// The ASCII decoder.
    pub fn ascii() -> (r: IDecoder)
        ensures
            r is ASCII,
    {
        IDecoder::ASCII(ASCIIDecoder {  })
    }

    /// The decoder for the OEM code page of a locale name such as `ja-JP`:
    /// an `encoding_rs` encoding where one exists for the code page, else an
    /// `oem_cp` table, else code page 437.
    pub fn from_locale_name(locale: &str) -> (r: IDecoder)
        ensures
            r == spec_decoder_for_locale(locale@),
    {
        if let Some(codepage) = oem_codepage_for_locale(locale) {
            if let Some(encoding) = encoding_for_codepage(codepage) {
                return IDecoder::Legacy(LegacyEncodingDecoder { decoder: encoding });
            }
            if let Some(decoder) = OEMCPDecoder::from_codepage(codepage) {
                return IDecoder::OEMCP(decoder);
            }
        }
        IDecoder::OEMCP(OEMCPDecoder::fallback())
    }

    /// The decoder for the OEM code page of the user's locale.
    pub fn native_oem_encoding() -> (r: IDecoder)
        ensures
            exists|locale: Seq<char>| r == spec_decoder_for_locale(locale),
    {
        let locale = user_default_locale();
        IDecoder::from_locale_name(locale.as_str())
    }

    /// The decoder for an encoding name such as `sjis`, `cp850` or `OEM-US`.
    ///
    /// `encoding_rs` labels come first, then code page numbers that `oem_cp`
    /// has a table for, then the other names of code page 437.
    pub fn from_encoding_name(name: &str) -> (r: Option<IDecoder>)
        ensures
            r == spec_decoder_for_name(name@),
    {
        if let Some(decoder) = encoding_for_label(name) {
            return Some(IDecoder::Legacy(LegacyEncodingDecoder { decoder }));
        }
        let codepage = match regex_first_group(OEM_CP_PATTERN, name) {
            Some(digits) => parse_u16(digits.as_str()),
            None => None,
        };
        if let Some(cp) = codepage {
            if let Some(decoder) = OEMCPDecoder::from_codepage(cp) {
                return Some(IDecoder::OEMCP(decoder));
            }
        }
        if regex_is_match(CP437_PATTERN, name) {
            return Some(IDecoder::OEMCP(OEMCPDecoder::fallback()));
        }
        None
    }

    /// The text of `input` if the decoder needs no substitution for it.
    pub fn to_string_lossless(&self, input: &[u8]) -> (r: Option<String>)
        ensures
            opt_chars(r) == self.spec_lossless(input@),
    {
        match self {
            IDecoder::UTF8NFC(d) => d.to_string_lossless(input),
            IDecoder::ASCII(d) => d.to_string_lossless(input),
            IDecoder::OEMCP(d) => d.to_string_lossless(input),
            IDecoder::Legacy(d) => d.to_string_lossless(input),
        }
    }

    /// The text of `input`, with replacement characters where needed.
    pub fn to_string_lossy(&self, input: &[u8]) -> (r: String)
        ensures
            r@ == self.spec_lossy(input@),
    {
        match self {
            IDecoder::UTF8NFC(d) => d.to_string_lossy(input),
            IDecoder::ASCII(d) => d.to_string_lossy(input),
            IDecoder::OEMCP(d) => d.to_string_lossy(input),
            IDecoder::Legacy(d) => d.to_string_lossy(input),
        }
    }

    /// Whether `input` decodes without substitution.
    pub fn can_decode(&self, input: &[u8]) -> (r: bool)
        ensures
            r == self.spec_can_decode(input@),
    {
        match self {
            IDecoder::UTF8NFC(d) => d.can_decode(input),
            IDecoder::ASCII(d) => d.can_decode(input),
            IDecoder::OEMCP(d) => d.can_decode(input),
            IDecoder::Legacy(d) => d.can_decode(input),
        }
    }

    /// The name of the decoder's encoding.
    pub fn encoding_name(&self) -> (r: String)
        ensures
            r@ == self.spec_encoding_name(),
    {
        match self {
            IDecoder::UTF8NFC(d) => d.encoding_name(),
            IDecoder::ASCII(d) => d.encoding_name(),
            IDecoder::OEMCP(d) => d.encoding_name(),
            IDecoder::Legacy(d) => d.encoding_name(),
        }
    }
}

/// Every subject decodes without substitution.
pub open spec fn decodes_all(decoder: IDecoder, subjects: Seq<Seq<u8>>) -> bool {
    forall|k: int| 0 <= k < subjects.len() ==> decoder.spec_can_decode(#[trigger] subjects[k])
}

/// The first decoder, from index `i` on, that decodes every subject.
pub open spec fn first_fitting_decoder(decoders: Seq<IDecoder>, subjects: Seq<Seq<u8>>, i: nat) -> Option<nat>
    decreases decoders.len() - i,
{
    if i >= decoders.len() {
        None
    } else if decodes_all(decoders[i as int], subjects) {
        Some(i)
    } else {
        first_fitting_decoder(decoders, subjects, i + 1)
    }
}

/// The views of a list of byte strings.
pub open spec fn byte_strings(strings: Seq<Vec<u8>>) -> Seq<Seq<u8>> {
    strings.map_values(|s: Vec<u8>| s@)
}

/// The index of the first decoder that decodes all of `strings` without
/// substitution; `None` if none does. Earlier decoders take priority.
pub fn decide_decoder(decoders: &[IDecoder], strings: &[Vec<u8>]) -> (r: Option<usize>)
    ensures
        opt_index(r) == first_fitting_decoder(decoders@, byte_strings(strings@), 0),
{
    let ghost subjects = byte_strings(strings@);
    let mut i: usize = 0;
    while i < decoders.len()
        invariant
            i <= decoders@.len(),
            subjects == byte_strings(strings@),
            first_fitting_decoder(decoders@, subjects, 0) == first_fitting_decoder(
                decoders@,
                subjects,
                i as nat,
            ),
        decreases decoders@.len() - i,
    {
        let decoder = &decoders[i];
        let mut all = true;
        let mut k: usize = 0;
        while k < strings.len()
            invariant
                k <= strings@.len(),
                i < decoders@.len(),
                subjects == byte_strings(strings@),
                *decoder == decoders@[i as int],
                all ==> forall|j: int| 0 <= j < k ==> decoder.spec_can_decode(#[trigger] subjects[j]),
                !all ==> !decodes_all(*decoder, subjects),
            decreases strings@.len() - k,
        {
            assert(subjects[k as int] == strings@[k as int]@);
            if all && !decoder.can_decode(strings[k].as_slice()) {
                all = false;
            }
            k = k + 1;
        }
        if all {
            return Some(i);
        }
        i = i + 1;
    }
    None
}

/// An optional index as a natural number.
pub open spec fn opt_index(r: Option<usize>) -> Option<nat> {
    match r {
        Some(i) => Some(i as nat),
        None => None,
    }
}

/// The decoder the selection picks decodes every subject, and no earlier
/// one does; when it picks none, no decoder from `i` on decodes them all.
pub proof fn lemma_first_fitting_decoder(decoders: Seq<IDecoder>, subjects: Seq<Seq<u8>>, i: nat)
    ensures
        first_fitting_decoder(decoders, subjects, i) matches Some(k) ==> i <= k < decoders.len()
            && decodes_all(decoders[k as int], subjects) && forall|j: int|
            i <= j < k ==> !decodes_all(#[trigger] decoders[j], subjects),
        first_fitting_decoder(decoders, subjects, i) is None ==> forall|j: int|
            i <= j < decoders.len() ==> !decodes_all(#[trigger] decoders[j], subjects),
    decreases decoders.len() - i,
{
    if i < decoders.len() {
        lemma_first_fitting_decoder(decoders, subjects, i + 1);
    }
}

/// With the candidates ASCII, a legacy decoder and UTF-8, in this order:
/// subjects that only the legacy decoder accepts select it, and subjects
/// that both ASCII and the legacy decoder accept select ASCII.
pub proof fn lemma_selector_priority(decoders: Seq<IDecoder>, subjects: Seq<Seq<u8>>)
    requires
        decoders.len() == 3,
        decoders[0] is ASCII,
        decoders[2] is UTF8NFC,
    ensures
        decodes_all(decoders[1], subjects) && !decodes_all(decoders[0], subjects) && !decodes_all(
            decoders[2],
            subjects,
        ) ==> first_fitting_decoder(decoders, subjects, 0) == Some(1nat),
        decodes_all(decoders[0], subjects) && decodes_all(decoders[1], subjects)
            ==> first_fitting_decoder(decoders, subjects, 0) == Some(0nat),
{
    lemma_first_fitting_decoder(decoders, subjects, 0);
    lemma_first_fitting_decoder(decoders, subjects, 1);
}

} // verus!
