//! Languages known to the pipeline, each with its two- to four-letter code.

use vstd::prelude::*;

verus! {

broadcast use vstd::string::group_string_axioms;

use vstd::string::StrSliceExecFns;

/// A language, identified by its transcription/translation code. `Auto` asks
/// the upstream recognizer to detect the language and is also what an unknown
/// code maps to.
#[derive(Clone, Copy, PartialEq, Eq, Structural, Debug)]
pub enum Language {
    Auto,
    English,
    Chinese,
    German,
    Spanish,
    Russian,
    Korean,
    French,
    Japanese,
    Portuguese,
    Turkish,
    Polish,
    Catalan,
    Dutch,
    Arabic,
    Swedish,
    Italian,
    Indonesian,
    Hindi,
    Finnish,
    Vietnamese,
    Hebrew,
    Ukrainian,
    Greek,
    Malay,
    Czech,
    Romanian,
    Danish,
    Hungarian,
    Tamil,
    Norwegian,
    Thai,
    Urdu,
    Croatian,
    Bulgarian,
    Lithuanian,
    Latin,
    Maori,
    Malayalam,
    Welsh,
    Slovak,
    Telugu,
    Persian,
    Latvian,
    Bengali,
    Serbian,
    Azerbaijani,
    Slovenian,
    Kannada,
    Estonian,
    Macedonian,
    Breton,
    Basque,
    Icelandic,
    Armenian,
    Nepali,
    Mongolian,
    Bosnian,
    Kazakh,
    Albanian,
    Swahili,
    Galician,
    Marathi,
    Punjabi,
    Sinhala,
    Khmer,
    Shona,
    Yoruba,
    Somali,
    Afrikaans,
    Occitan,
    Georgian,
    Belarusian,
    Tajik,
    Sindhi,
    Gujarati,
    Amharic,
    Yiddish,
    Lao,
    Uzbek,
    Faroese,
    HaitianCreole,
    Pashto,
    Turkmen,
    Nynorsk,
    Maltese,
    Sanskrit,
    Luxembourgish,
    Myanmar,
    Tibetan,
    Tagalog,
    Malagasy,
    Assamese,
    Tatar,
    Hawaiian,
    Lingala,
    Hausa,
    Bashkir,
    Javanese,
    Sundanese,
}

/// The language whose two-letter code is `ab`, or `Auto` for an unknown pair.
pub open spec fn spec_from_code2(a: char, b: char) -> Language {
    if a == 'e' && b == 'n' {
        Language::English
    } else if a == 'z' && b == 'h' {
        Language::Chinese
    } else if a == 'd' && b == 'e' {
        Language::German
    } else if a == 'e' && b == 's' {
        Language::Spanish
    } else if a == 'r' && b == 'u' {
        Language::Russian
    } else if a == 'k' && b == 'o' {
        Language::Korean
    } else if a == 'f' && b == 'r' {
        Language::French
    } else if a == 'j' && b == 'a' {
        Language::Japanese
    } else if a == 'p' && b == 't' {
        Language::Portuguese
    } else if a == 't' && b == 'r' {
        Language::Turkish
    } else if a == 'p' && b == 'l' {
        Language::Polish
    } else if a == 'c' && b == 'a' {
        Language::Catalan
    } else if a == 'n' && b == 'l' {
        Language::Dutch
    } else if a == 'a' && b == 'r' {
        Language::Arabic
    } else if a == 's' && b == 'v' {
        Language::Swedish
    } else if a == 'i' && b == 't' {
        Language::Italian
    } else if a == 'i' && b == 'd' {
        Language::Indonesian
    } else if a == 'h' && b == 'i' {
        Language::Hindi
    } else if a == 'f' && b == 'i' {
        Language::Finnish
    } else if a == 'v' && b == 'i' {
        Language::Vietnamese
    } else if a == 'h' && b == 'e' {
        Language::Hebrew
    } else if a == 'u' && b == 'k' {
        Language::Ukrainian
    } else if a == 'e' && b == 'l' {
        Language::Greek
    } else if a == 'm' && b == 's' {
        Language::Malay
    } else if a == 'c' && b == 's' {
        Language::Czech
    } else if a == 'r' && b == 'o' {
        Language::Romanian
    } else if a == 'd' && b == 'a' {
        Language::Danish
    } else if a == 'h' && b == 'u' {
        Language::Hungarian
    } else if a == 't' && b == 'a' {
        Language::Tamil
    } else if a == 'n' && b == 'o' {
        Language::Norwegian
    } else if a == 't' && b == 'h' {
        Language::Thai
    } else if a == 'u' && b == 'r' {
        Language::Urdu
    } else if a == 'h' && b == 'r' {
        Language::Croatian
    } else if a == 'b' && b == 'g' {
        Language::Bulgarian
    } else if a == 'l' && b == 't' {
        Language::Lithuanian
    } else if a == 'l' && b == 'a' {
        Language::Latin
    } else if a == 'm' && b == 'i' {
        Language::Maori
    } else if a == 'm' && b == 'l' {
        Language::Malayalam
    } else if a == 'c' && b == 'y' {
        Language::Welsh
    } else if a == 's' && b == 'k' {
        Language::Slovak
    } else if a == 't' && b == 'e' {
        Language::Telugu
    } else if a == 'f' && b == 'a' {
        Language::Persian
    } else if a == 'l' && b == 'v' {
        Language::Latvian
    } else if a == 'b' && b == 'n' {
        Language::Bengali
    } else if a == 's' && b == 'r' {
        Language::Serbian
    } else if a == 'a' && b == 'z' {
        Language::Azerbaijani
    } else if a == 's' && b == 'l' {
        Language::Slovenian
    } else if a == 'k' && b == 'n' {
        Language::Kannada
    } else if a == 'e' && b == 't' {
        Language::Estonian
    } else if a == 'm' && b == 'k' {
        Language::Macedonian
    } else if a == 'b' && b == 'r' {
        Language::Breton
    } else if a == 'e' && b == 'u' {
        Language::Basque
    } else if a == 'i' && b == 's' {
        Language::Icelandic
    } else if a == 'h' && b == 'y' {
        Language::Armenian
    } else if a == 'n' && b == 'e' {
        Language::Nepali
    } else if a == 'm' && b == 'n' {
        Language::Mongolian
    } else if a == 'b' && b == 's' {
        Language::Bosnian
    } else if a == 'k' && b == 'k' {
        Language::Kazakh
    } else if a == 's' && b == 'q' {
        Language::Albanian
    } else if a == 's' && b == 'w' {
        Language::Swahili
    } else if a == 'g' && b == 'l' {
        Language::Galician
    } else if a == 'm' && b == 'r' {
        Language::Marathi
    } else if a == 'p' && b == 'a' {
        Language::Punjabi
    } else if a == 's' && b == 'i' {
        Language::Sinhala
    } else if a == 'k' && b == 'm' {
        Language::Khmer
    } else if a == 's' && b == 'n' {
        Language::Shona
    } else if a == 'y' && b == 'o' {
        Language::Yoruba
    } else if a == 's' && b == 'o' {
        Language::Somali
    } else if a == 'a' && b == 'f' {
        Language::Afrikaans
    } else if a == 'o' && b == 'c' {
        Language::Occitan
    } else if a == 'k' && b == 'a' {
        Language::Georgian
    } else if a == 'b' && b == 'e' {
        Language::Belarusian
    } else if a == 't' && b == 'g' {
        Language::Tajik
    } else if a == 's' && b == 'd' {
        Language::Sindhi
    } else if a == 'g' && b == 'u' {
        Language::Gujarati
    } else if a == 'a' && b == 'm' {
        Language::Amharic
    } else if a == 'y' && b == 'i' {
        Language::Yiddish
    } else if a == 'l' && b == 'o' {
        Language::Lao
    } else if a == 'u' && b == 'z' {
        Language::Uzbek
    } else if a == 'f' && b == 'o' {
        Language::Faroese
    } else if a == 'h' && b == 't' {
        Language::HaitianCreole
    } else if a == 'p' && b == 's' {
        Language::Pashto
    } else if a == 't' && b == 'k' {
        Language::Turkmen
    } else if a == 'n' && b == 'n' {
        Language::Nynorsk
    } else if a == 'm' && b == 't' {
        Language::Maltese
    } else if a == 's' && b == 'a' {
        Language::Sanskrit
    } else if a == 'l' && b == 'b' {
        Language::Luxembourgish
    } else if a == 'm' && b == 'y' {
        Language::Myanmar
    } else if a == 'b' && b == 'o' {
        Language::Tibetan
    } else if a == 't' && b == 'l' {
        Language::Tagalog
    } else if a == 'm' && b == 'g' {
        Language::Malagasy
    } else if a == 'a' && b == 's' {
        Language::Assamese
    } else if a == 't' && b == 't' {
        Language::Tatar
    } else if a == 'l' && b == 'n' {
        Language::Lingala
    } else if a == 'h' && b == 'a' {
        Language::Hausa
    } else if a == 'b' && b == 'a' {
        Language::Bashkir
    } else if a == 'j' && b == 'w' {
        Language::Javanese
    } else if a == 's' && b == 'u' {
        Language::Sundanese
    } else {
        Language::Auto
    }
}

/// The language whose three-letter code is `abc`, or `Auto` for an unknown
/// triple.
pub open spec fn spec_from_code3(a: char, b: char, c: char) -> Language {
    if a == 'h' && b == 'a' && c == 'w' {
        Language::Hawaiian
    } else {
        Language::Auto
    }
}

impl Language {
    /// The code of this language.
    pub open spec fn code(self) -> Seq<char> {
        match self {
            Language::Auto => "auto"@,
            Language::English => "en"@,
            Language::Chinese => "zh"@,
            Language::German => "de"@,
            Language::Spanish => "es"@,
            Language::Russian => "ru"@,
            Language::Korean => "ko"@,
            Language::French => "fr"@,
            Language::Japanese => "ja"@,
            Language::Portuguese => "pt"@,
            Language::Turkish => "tr"@,
            Language::Polish => "pl"@,
            Language::Catalan => "ca"@,
            Language::Dutch => "nl"@,
            Language::Arabic => "ar"@,
            Language::Swedish => "sv"@,
            Language::Italian => "it"@,
            Language::Indonesian => "id"@,
            Language::Hindi => "hi"@,
            Language::Finnish => "fi"@,
            Language::Vietnamese => "vi"@,
            Language::Hebrew => "he"@,
            Language::Ukrainian => "uk"@,
            Language::Greek => "el"@,
            Language::Malay => "ms"@,
            Language::Czech => "cs"@,
            Language::Romanian => "ro"@,
            Language::Danish => "da"@,
            Language::Hungarian => "hu"@,
            Language::Tamil => "ta"@,
            Language::Norwegian => "no"@,
            Language::Thai => "th"@,
            Language::Urdu => "ur"@,
            Language::Croatian => "hr"@,
            Language::Bulgarian => "bg"@,
            Language::Lithuanian => "lt"@,
            Language::Latin => "la"@,
            Language::Maori => "mi"@,
            Language::Malayalam => "ml"@,
            Language::Welsh => "cy"@,
            Language::Slovak => "sk"@,
            Language::Telugu => "te"@,
            Language::Persian => "fa"@,
            Language::Latvian => "lv"@,
            Language::Bengali => "bn"@,
            Language::Serbian => "sr"@,
            Language::Azerbaijani => "az"@,
            Language::Slovenian => "sl"@,
            Language::Kannada => "kn"@,
            Language::Estonian => "et"@,
            Language::Macedonian => "mk"@,
            Language::Breton => "br"@,
            Language::Basque => "eu"@,
            Language::Icelandic => "is"@,
            Language::Armenian => "hy"@,
            Language::Nepali => "ne"@,
            Language::Mongolian => "mn"@,
            Language::Bosnian => "bs"@,
            Language::Kazakh => "kk"@,
            Language::Albanian => "sq"@,
            Language::Swahili => "sw"@,
            Language::Galician => "gl"@,
            Language::Marathi => "mr"@,
            Language::Punjabi => "pa"@,
            Language::Sinhala => "si"@,
            Language::Khmer => "km"@,
            Language::Shona => "sn"@,
            Language::Yoruba => "yo"@,
            Language::Somali => "so"@,
            Language::Afrikaans => "af"@,
            Language::Occitan => "oc"@,
            Language::Georgian => "ka"@,
            Language::Belarusian => "be"@,
            Language::Tajik => "tg"@,
            Language::Sindhi => "sd"@,
            Language::Gujarati => "gu"@,
            Language::Amharic => "am"@,
            Language::Yiddish => "yi"@,
            Language::Lao => "lo"@,
            Language::Uzbek => "uz"@,
            Language::Faroese => "fo"@,
            Language::HaitianCreole => "ht"@,
            Language::Pashto => "ps"@,
            Language::Turkmen => "tk"@,
            Language::Nynorsk => "nn"@,
            Language::Maltese => "mt"@,
            Language::Sanskrit => "sa"@,
            Language::Luxembourgish => "lb"@,
            Language::Myanmar => "my"@,
            Language::Tibetan => "bo"@,
            Language::Tagalog => "tl"@,
            Language::Malagasy => "mg"@,
            Language::Assamese => "as"@,
            Language::Tatar => "tt"@,
            Language::Hawaiian => "haw"@,
            Language::Lingala => "ln"@,
            Language::Hausa => "ha"@,
            Language::Bashkir => "ba"@,
            Language::Javanese => "jw"@,
            Language::Sundanese => "su"@,
        }
    }

    /// The language a code names; a code that names no known language is
    /// `Auto`.
    pub open spec fn spec_from_code(s: Seq<char>) -> Language {
        if s.len() == 2 {
            spec_from_code2(s[0], s[1])
        } else if s.len() == 3 {
            spec_from_code3(s[0], s[1], s[2])
        } else if s.len() == 4 {
            if s[0] == 'a' && s[1] == 'u' && s[2] == 't' && s[3] == 'o' {
                Language::Auto
            } else {
                Language::Auto
            }
        } else {
            Language::Auto
        }
    }

    /// Renders the language as its code.
    pub fn as_str(&self) -> (r: &'static str)
        ensures
            r@ == self.code(),
    {
        match self {
            Language::Auto => "auto",
            Language::English => "en",
            Language::Chinese => "zh",
            Language::German => "de",
            Language::Spanish => "es",
            Language::Russian => "ru",
            Language::Korean => "ko",
            Language::French => "fr",
            Language::Japanese => "ja",
            Language::Portuguese => "pt",
            Language::Turkish => "tr",
            Language::Polish => "pl",
            Language::Catalan => "ca",
            Language::Dutch => "nl",
            Language::Arabic => "ar",
            Language::Swedish => "sv",
            Language::Italian => "it",
            Language::Indonesian => "id",
            Language::Hindi => "hi",
            Language::Finnish => "fi",
            Language::Vietnamese => "vi",
            Language::Hebrew => "he",
            Language::Ukrainian => "uk",
            Language::Greek => "el",
            Language::Malay => "ms",
            Language::Czech => "cs",
            Language::Romanian => "ro",
            Language::Danish => "da",
            Language::Hungarian => "hu",
            Language::Tamil => "ta",
            Language::Norwegian => "no",
            Language::Thai => "th",
            Language::Urdu => "ur",
            Language::Croatian => "hr",
            Language::Bulgarian => "bg",
            Language::Lithuanian => "lt",
            Language::Latin => "la",
            Language::Maori => "mi",
            Language::Malayalam => "ml",
            Language::Welsh => "cy",
            Language::Slovak => "sk",
            Language::Telugu => "te",
            Language::Persian => "fa",
            Language::Latvian => "lv",
            Language::Bengali => "bn",
            Language::Serbian => "sr",
            Language::Azerbaijani => "az",
            Language::Slovenian => "sl",
            Language::Kannada => "kn",
            Language::Estonian => "et",
            Language::Macedonian => "mk",
            Language::Breton => "br",
            Language::Basque => "eu",
            Language::Icelandic => "is",
            Language::Armenian => "hy",
            Language::Nepali => "ne",
            Language::Mongolian => "mn",
            Language::Bosnian => "bs",
            Language::Kazakh => "kk",
            Language::Albanian => "sq",
            Language::Swahili => "sw",
            Language::Galician => "gl",
            Language::Marathi => "mr",
            Language::Punjabi => "pa",
            Language::Sinhala => "si",
            Language::Khmer => "km",
            Language::Shona => "sn",
            Language::Yoruba => "yo",
            Language::Somali => "so",
            Language::Afrikaans => "af",
            Language::Occitan => "oc",
            Language::Georgian => "ka",
            Language::Belarusian => "be",
            Language::Tajik => "tg",
            Language::Sindhi => "sd",
            Language::Gujarati => "gu",
            Language::Amharic => "am",
            Language::Yiddish => "yi",
            Language::Lao => "lo",
            Language::Uzbek => "uz",
            Language::Faroese => "fo",
            Language::HaitianCreole => "ht",
            Language::Pashto => "ps",
            Language::Turkmen => "tk",
            Language::Nynorsk => "nn",
            Language::Maltese => "mt",
            Language::Sanskrit => "sa",
            Language::Luxembourgish => "lb",
            Language::Myanmar => "my",
            Language::Tibetan => "bo",
            Language::Tagalog => "tl",
            Language::Malagasy => "mg",
            Language::Assamese => "as",
            Language::Tatar => "tt",
            Language::Hawaiian => "haw",
            Language::Lingala => "ln",
            Language::Hausa => "ha",
            Language::Bashkir => "ba",
            Language::Javanese => "jw",
            Language::Sundanese => "su",
        }
    }

    /// Parses a code; a code that names no known language yields `Auto`.
    pub fn from_code(s: &str) -> (r: Language)
        ensures
            r == Language::spec_from_code(s@),
    {
        let n = s.unicode_len();
        if n == 2 {
            let a = s.get_char(0);
            let b = s.get_char(1);
            if a == 'e' && b == 'n' {
                Language::English
            } else if a == 'z' && b == 'h' {
                Language::Chinese
            } else if a == 'd' && b == 'e' {
                Language::German
            } else if a == 'e' && b == 's' {
                Language::Spanish
            } else if a == 'r' && b == 'u' {
                Language::Russian
            } else if a == 'k' && b == 'o' {
                Language::Korean
            } else if a == 'f' && b == 'r' {
                Language::French
            } else if a == 'j' && b == 'a' {
                Language::Japanese
            } else if a == 'p' && b == 't' {
                Language::Portuguese
            } else if a == 't' && b == 'r' {
                Language::Turkish
            } else if a == 'p' && b == 'l' {
                Language::Polish
            } else if a == 'c' && b == 'a' {
                Language::Catalan
            } else if a == 'n' && b == 'l' {
                Language::Dutch
            } else if a == 'a' && b == 'r' {
                Language::Arabic
            } else if a == 's' && b == 'v' {
                Language::Swedish
            } else if a == 'i' && b == 't' {
                Language::Italian
            } else if a == 'i' && b == 'd' {
                Language::Indonesian
            } else if a == 'h' && b == 'i' {
                Language::Hindi
            } else if a == 'f' && b == 'i' {
                Language::Finnish
            } else if a == 'v' && b == 'i' {
                Language::Vietnamese
            } else if a == 'h' && b == 'e' {
                Language::Hebrew
            } else if a == 'u' && b == 'k' {
                Language::Ukrainian
            } else if a == 'e' && b == 'l' {
                Language::Greek
            } else if a == 'm' && b == 's' {
                Language::Malay
            } else if a == 'c' && b == 's' {
                Language::Czech
            } else if a == 'r' && b == 'o' {
                Language::Romanian
            } else if a == 'd' && b == 'a' {
                Language::Danish
            } else if a == 'h' && b == 'u' {
                Language::Hungarian
            } else if a == 't' && b == 'a' {
                Language::Tamil
            } else if a == 'n' && b == 'o' {
                Language::Norwegian
            } else if a == 't' && b == 'h' {
                Language::Thai
            } else if a == 'u' && b == 'r' {
                Language::Urdu
            } else if a == 'h' && b == 'r' {
                Language::Croatian
            } else if a == 'b' && b == 'g' {
                Language::Bulgarian
            } else if a == 'l' && b == 't' {
                Language::Lithuanian
            } else if a == 'l' && b == 'a' {
                Language::Latin
            } else if a == 'm' && b == 'i' {
                Language::Maori
            } else if a == 'm' && b == 'l' {
                Language::Malayalam
            } else if a == 'c' && b == 'y' {
                Language::Welsh
            } else if a == 's' && b == 'k' {
                Language::Slovak
            } else if a == 't' && b == 'e' {
                Language::Telugu
            } else if a == 'f' && b == 'a' {
                Language::Persian
            } else if a == 'l' && b == 'v' {
                Language::Latvian
            } else if a == 'b' && b == 'n' {
                Language::Bengali
            } else if a == 's' && b == 'r' {
                Language::Serbian
            } else if a == 'a' && b == 'z' {
                Language::Azerbaijani
            } else if a == 's' && b == 'l' {
                Language::Slovenian
            } else if a == 'k' && b == 'n' {
                Language::Kannada
            } else if a == 'e' && b == 't' {
                Language::Estonian
            } else if a == 'm' && b == 'k' {
                Language::Macedonian
            } else if a == 'b' && b == 'r' {
                Language::Breton
            } else if a == 'e' && b == 'u' {
                Language::Basque
            } else if a == 'i' && b == 's' {
                Language::Icelandic
            } else if a == 'h' && b == 'y' {
                Language::Armenian
            } else if a == 'n' && b == 'e' {
                Language::Nepali
            } else if a == 'm' && b == 'n' {
                Language::Mongolian
            } else if a == 'b' && b == 's' {
                Language::Bosnian
            } else if a == 'k' && b == 'k' {
                Language::Kazakh
            } else if a == 's' && b == 'q' {
                Language::Albanian
            } else if a == 's' && b == 'w' {
                Language::Swahili
            } else if a == 'g' && b == 'l' {
                Language::Galician
            } else if a == 'm' && b == 'r' {
                Language::Marathi
            } else if a == 'p' && b == 'a' {
                Language::Punjabi
            } else if a == 's' && b == 'i' {
                Language::Sinhala
            } else if a == 'k' && b == 'm' {
                Language::Khmer
            } else if a == 's' && b == 'n' {
                Language::Shona
            } else if a == 'y' && b == 'o' {
                Language::Yoruba
            } else if a == 's' && b == 'o' {
                Language::Somali
            } else if a == 'a' && b == 'f' {
                Language::Afrikaans
            } else if a == 'o' && b == 'c' {
                Language::Occitan
            } else if a == 'k' && b == 'a' {
                Language::Georgian
            } else if a == 'b' && b == 'e' {
                Language::Belarusian
            } else if a == 't' && b == 'g' {
                Language::Tajik
            } else if a == 's' && b == 'd' {
                Language::Sindhi
            } else if a == 'g' && b == 'u' {
                Language::Gujarati
            } else if a == 'a' && b == 'm' {
                Language::Amharic
            } else if a == 'y' && b == 'i' {
                Language::Yiddish
            } else if a == 'l' && b == 'o' {
                Language::Lao
            } else if a == 'u' && b == 'z' {
                Language::Uzbek
            } else if a == 'f' && b == 'o' {
                Language::Faroese
            } else if a == 'h' && b == 't' {
                Language::HaitianCreole
            } else if a == 'p' && b == 's' {
                Language::Pashto
            } else if a == 't' && b == 'k' {
                Language::Turkmen
            } else if a == 'n' && b == 'n' {
                Language::Nynorsk
            } else if a == 'm' && b == 't' {
                Language::Maltese
            } else if a == 's' && b == 'a' {
                Language::Sanskrit
            } else if a == 'l' && b == 'b' {
                Language::Luxembourgish
            } else if a == 'm' && b == 'y' {
                Language::Myanmar
            } else if a == 'b' && b == 'o' {
                Language::Tibetan
            } else if a == 't' && b == 'l' {
                Language::Tagalog
            } else if a == 'm' && b == 'g' {
                Language::Malagasy
            } else if a == 'a' && b == 's' {
                Language::Assamese
            } else if a == 't' && b == 't' {
                Language::Tatar
            } else if a == 'l' && b == 'n' {
                Language::Lingala
            } else if a == 'h' && b == 'a' {
                Language::Hausa
            } else if a == 'b' && b == 'a' {
                Language::Bashkir
            } else if a == 'j' && b == 'w' {
                Language::Javanese
            } else if a == 's' && b == 'u' {
                Language::Sundanese
            } else {
                Language::Auto
            }
        } else if n == 3 {
            let a = s.get_char(0);
            let b = s.get_char(1);
            let c = s.get_char(2);
            if a == 'h' && b == 'a' && c == 'w' {
                Language::Hawaiian
            } else {
                Language::Auto
            }
        } else if n == 4 {
            let a = s.get_char(0);
            let b = s.get_char(1);
            let c = s.get_char(2);
            let d = s.get_char(3);
            if a == 'a' && b == 'u' && c == 't' && d == 'o' {
                Language::Auto
            } else {
                Language::Auto
            }
        } else {
            Language::Auto
        }
    }
}

/// Law: the code of a language parses back to that language; `as_str` and
/// `from_code` are mutually inverse on every known language.
#[verifier::rlimit(100)]
pub proof fn lemma_code_round_trip(l: Language)
    ensures
        Language::spec_from_code(l.code()) == l,
{
    match l {
        Language::Auto => {
            assert(Language::spec_from_code("auto"@) == Language::Auto) by { reveal_strlit("auto"); }
        },
        Language::English => {
            assert(Language::spec_from_code("en"@) == Language::English) by { reveal_strlit("en"); }
        },
        Language::Chinese => {
            assert(Language::spec_from_code("zh"@) == Language::Chinese) by { reveal_strlit("zh"); }
        },
        Language::German => {
            assert(Language::spec_from_code("de"@) == Language::German) by { reveal_strlit("de"); }
        },
        Language::Spanish => {
            assert(Language::spec_from_code("es"@) == Language::Spanish) by { reveal_strlit("es"); }
        },
        Language::Russian => {
            assert(Language::spec_from_code("ru"@) == Language::Russian) by { reveal_strlit("ru"); }
        },
        Language::Korean => {
            assert(Language::spec_from_code("ko"@) == Language::Korean) by { reveal_strlit("ko"); }
        },
        Language::French => {
            assert(Language::spec_from_code("fr"@) == Language::French) by { reveal_strlit("fr"); }
        },
        Language::Japanese => {
            assert(Language::spec_from_code("ja"@) == Language::Japanese) by { reveal_strlit("ja"); }
        },
        Language::Portuguese => {
            assert(Language::spec_from_code("pt"@) == Language::Portuguese) by { reveal_strlit("pt"); }
        },
        Language::Turkish => {
            assert(Language::spec_from_code("tr"@) == Language::Turkish) by { reveal_strlit("tr"); }
        },
        Language::Polish => {
            assert(Language::spec_from_code("pl"@) == Language::Polish) by { reveal_strlit("pl"); }
        },
        Language::Catalan => {
            assert(Language::spec_from_code("ca"@) == Language::Catalan) by { reveal_strlit("ca"); }
        },
        Language::Dutch => {
            assert(Language::spec_from_code("nl"@) == Language::Dutch) by { reveal_strlit("nl"); }
        },
        Language::Arabic => {
            assert(Language::spec_from_code("ar"@) == Language::Arabic) by { reveal_strlit("ar"); }
        },
        Language::Swedish => {
            assert(Language::spec_from_code("sv"@) == Language::Swedish) by { reveal_strlit("sv"); }
        },
        Language::Italian => {
            assert(Language::spec_from_code("it"@) == Language::Italian) by { reveal_strlit("it"); }
        },
        Language::Indonesian => {
            assert(Language::spec_from_code("id"@) == Language::Indonesian) by { reveal_strlit("id"); }
        },
        Language::Hindi => {
            assert(Language::spec_from_code("hi"@) == Language::Hindi) by { reveal_strlit("hi"); }
        },
        Language::Finnish => {
            assert(Language::spec_from_code("fi"@) == Language::Finnish) by { reveal_strlit("fi"); }
        },
        Language::Vietnamese => {
            assert(Language::spec_from_code("vi"@) == Language::Vietnamese) by { reveal_strlit("vi"); }
        },
        Language::Hebrew => {
            assert(Language::spec_from_code("he"@) == Language::Hebrew) by { reveal_strlit("he"); }
        },
        Language::Ukrainian => {
            assert(Language::spec_from_code("uk"@) == Language::Ukrainian) by { reveal_strlit("uk"); }
        },
        Language::Greek => {
            assert(Language::spec_from_code("el"@) == Language::Greek) by { reveal_strlit("el"); }
        },
        Language::Malay => {
            assert(Language::spec_from_code("ms"@) == Language::Malay) by { reveal_strlit("ms"); }
        },
        Language::Czech => {
            assert(Language::spec_from_code("cs"@) == Language::Czech) by { reveal_strlit("cs"); }
        },
        Language::Romanian => {
            assert(Language::spec_from_code("ro"@) == Language::Romanian) by { reveal_strlit("ro"); }
        },
        Language::Danish => {
            assert(Language::spec_from_code("da"@) == Language::Danish) by { reveal_strlit("da"); }
        },
        Language::Hungarian => {
            assert(Language::spec_from_code("hu"@) == Language::Hungarian) by { reveal_strlit("hu"); }
        },
        Language::Tamil => {
            assert(Language::spec_from_code("ta"@) == Language::Tamil) by { reveal_strlit("ta"); }
        },
        Language::Norwegian => {
            assert(Language::spec_from_code("no"@) == Language::Norwegian) by { reveal_strlit("no"); }
        },
        Language::Thai => {
            assert(Language::spec_from_code("th"@) == Language::Thai) by { reveal_strlit("th"); }
        },
        Language::Urdu => {
            assert(Language::spec_from_code("ur"@) == Language::Urdu) by { reveal_strlit("ur"); }
        },
        Language::Croatian => {
            assert(Language::spec_from_code("hr"@) == Language::Croatian) by { reveal_strlit("hr"); }
        },
        Language::Bulgarian => {
            assert(Language::spec_from_code("bg"@) == Language::Bulgarian) by { reveal_strlit("bg"); }
        },
        Language::Lithuanian => {
            assert(Language::spec_from_code("lt"@) == Language::Lithuanian) by { reveal_strlit("lt"); }
        },
        Language::Latin => {
            assert(Language::spec_from_code("la"@) == Language::Latin) by { reveal_strlit("la"); }
        },
        Language::Maori => {
            assert(Language::spec_from_code("mi"@) == Language::Maori) by { reveal_strlit("mi"); }
        },
        Language::Malayalam => {
            assert(Language::spec_from_code("ml"@) == Language::Malayalam) by { reveal_strlit("ml"); }
        },
        Language::Welsh => {
            assert(Language::spec_from_code("cy"@) == Language::Welsh) by { reveal_strlit("cy"); }
        },
        Language::Slovak => {
            assert(Language::spec_from_code("sk"@) == Language::Slovak) by { reveal_strlit("sk"); }
        },
        Language::Telugu => {
            assert(Language::spec_from_code("te"@) == Language::Telugu) by { reveal_strlit("te"); }
        },
        Language::Persian => {
            assert(Language::spec_from_code("fa"@) == Language::Persian) by { reveal_strlit("fa"); }
        },
        Language::Latvian => {
            assert(Language::spec_from_code("lv"@) == Language::Latvian) by { reveal_strlit("lv"); }
        },
        Language::Bengali => {
            assert(Language::spec_from_code("bn"@) == Language::Bengali) by { reveal_strlit("bn"); }
        },
        Language::Serbian => {
            assert(Language::spec_from_code("sr"@) == Language::Serbian) by { reveal_strlit("sr"); }
        },
        Language::Azerbaijani => {
            assert(Language::spec_from_code("az"@) == Language::Azerbaijani) by { reveal_strlit("az"); }
        },
        Language::Slovenian => {
            assert(Language::spec_from_code("sl"@) == Language::Slovenian) by { reveal_strlit("sl"); }
        },
        Language::Kannada => {
            assert(Language::spec_from_code("kn"@) == Language::Kannada) by { reveal_strlit("kn"); }
        },
        Language::Estonian => {
            assert(Language::spec_from_code("et"@) == Language::Estonian) by { reveal_strlit("et"); }
        },
        Language::Macedonian => {
            assert(Language::spec_from_code("mk"@) == Language::Macedonian) by { reveal_strlit("mk"); }
        },
        Language::Breton => {
            assert(Language::spec_from_code("br"@) == Language::Breton) by { reveal_strlit("br"); }
        },
        Language::Basque => {
            assert(Language::spec_from_code("eu"@) == Language::Basque) by { reveal_strlit("eu"); }
        },
        Language::Icelandic => {
            assert(Language::spec_from_code("is"@) == Language::Icelandic) by { reveal_strlit("is"); }
        },
        Language::Armenian => {
            assert(Language::spec_from_code("hy"@) == Language::Armenian) by { reveal_strlit("hy"); }
        },
        Language::Nepali => {
            assert(Language::spec_from_code("ne"@) == Language::Nepali) by { reveal_strlit("ne"); }
        },
        Language::Mongolian => {
            assert(Language::spec_from_code("mn"@) == Language::Mongolian) by { reveal_strlit("mn"); }
        },
        Language::Bosnian => {
            assert(Language::spec_from_code("bs"@) == Language::Bosnian) by { reveal_strlit("bs"); }
        },
        Language::Kazakh => {
            assert(Language::spec_from_code("kk"@) == Language::Kazakh) by { reveal_strlit("kk"); }
        },
        Language::Albanian => {
            assert(Language::spec_from_code("sq"@) == Language::Albanian) by { reveal_strlit("sq"); }
        },
        Language::Swahili => {
            assert(Language::spec_from_code("sw"@) == Language::Swahili) by { reveal_strlit("sw"); }
        },
        Language::Galician => {
            assert(Language::spec_from_code("gl"@) == Language::Galician) by { reveal_strlit("gl"); }
        },
        Language::Marathi => {
            assert(Language::spec_from_code("mr"@) == Language::Marathi) by { reveal_strlit("mr"); }
        },
        Language::Punjabi => {
            assert(Language::spec_from_code("pa"@) == Language::Punjabi) by { reveal_strlit("pa"); }
        },
        Language::Sinhala => {
            assert(Language::spec_from_code("si"@) == Language::Sinhala) by { reveal_strlit("si"); }
        },
        Language::Khmer => {
            assert(Language::spec_from_code("km"@) == Language::Khmer) by { reveal_strlit("km"); }
        },
        Language::Shona => {
            assert(Language::spec_from_code("sn"@) == Language::Shona) by { reveal_strlit("sn"); }
        },
        Language::Yoruba => {
            assert(Language::spec_from_code("yo"@) == Language::Yoruba) by { reveal_strlit("yo"); }
        },
        Language::Somali => {
            assert(Language::spec_from_code("so"@) == Language::Somali) by { reveal_strlit("so"); }
        },
        Language::Afrikaans => {
            assert(Language::spec_from_code("af"@) == Language::Afrikaans) by { reveal_strlit("af"); }
        },
        Language::Occitan => {
            assert(Language::spec_from_code("oc"@) == Language::Occitan) by { reveal_strlit("oc"); }
        },
        Language::Georgian => {
            assert(Language::spec_from_code("ka"@) == Language::Georgian) by { reveal_strlit("ka"); }
        },
        Language::Belarusian => {
            assert(Language::spec_from_code("be"@) == Language::Belarusian) by { reveal_strlit("be"); }
        },
        Language::Tajik => {
            assert(Language::spec_from_code("tg"@) == Language::Tajik) by { reveal_strlit("tg"); }
        },
        Language::Sindhi => {
            assert(Language::spec_from_code("sd"@) == Language::Sindhi) by { reveal_strlit("sd"); }
        },
        Language::Gujarati => {
            assert(Language::spec_from_code("gu"@) == Language::Gujarati) by { reveal_strlit("gu"); }
        },
        Language::Amharic => {
            assert(Language::spec_from_code("am"@) == Language::Amharic) by { reveal_strlit("am"); }
        },
        Language::Yiddish => {
            assert(Language::spec_from_code("yi"@) == Language::Yiddish) by { reveal_strlit("yi"); }
        },
        Language::Lao => {
            assert(Language::spec_from_code("lo"@) == Language::Lao) by { reveal_strlit("lo"); }
        },
        Language::Uzbek => {
            assert(Language::spec_from_code("uz"@) == Language::Uzbek) by { reveal_strlit("uz"); }
        },
        Language::Faroese => {
            assert(Language::spec_from_code("fo"@) == Language::Faroese) by { reveal_strlit("fo"); }
        },
        Language::HaitianCreole => {
            assert(Language::spec_from_code("ht"@) == Language::HaitianCreole) by { reveal_strlit("ht"); }
        },
        Language::Pashto => {
            assert(Language::spec_from_code("ps"@) == Language::Pashto) by { reveal_strlit("ps"); }
        },
        Language::Turkmen => {
            assert(Language::spec_from_code("tk"@) == Language::Turkmen) by { reveal_strlit("tk"); }
        },
        Language::Nynorsk => {
            assert(Language::spec_from_code("nn"@) == Language::Nynorsk) by { reveal_strlit("nn"); }
        },
        Language::Maltese => {
            assert(Language::spec_from_code("mt"@) == Language::Maltese) by { reveal_strlit("mt"); }
        },
        Language::Sanskrit => {
            assert(Language::spec_from_code("sa"@) == Language::Sanskrit) by { reveal_strlit("sa"); }
        },
        Language::Luxembourgish => {
            assert(Language::spec_from_code("lb"@) == Language::Luxembourgish) by { reveal_strlit("lb"); }
        },
        Language::Myanmar => {
            assert(Language::spec_from_code("my"@) == Language::Myanmar) by { reveal_strlit("my"); }
        },
        Language::Tibetan => {
            assert(Language::spec_from_code("bo"@) == Language::Tibetan) by { reveal_strlit("bo"); }
        },
        Language::Tagalog => {
            assert(Language::spec_from_code("tl"@) == Language::Tagalog) by { reveal_strlit("tl"); }
        },
        Language::Malagasy => {
            assert(Language::spec_from_code("mg"@) == Language::Malagasy) by { reveal_strlit("mg"); }
        },
        Language::Assamese => {
            assert(Language::spec_from_code("as"@) == Language::Assamese) by { reveal_strlit("as"); }
        },
        Language::Tatar => {
            assert(Language::spec_from_code("tt"@) == Language::Tatar) by { reveal_strlit("tt"); }
        },
        Language::Hawaiian => {
            assert(Language::spec_from_code("haw"@) == Language::Hawaiian) by { reveal_strlit("haw"); }
        },
        Language::Lingala => {
            assert(Language::spec_from_code("ln"@) == Language::Lingala) by { reveal_strlit("ln"); }
        },
        Language::Hausa => {
            assert(Language::spec_from_code("ha"@) == Language::Hausa) by { reveal_strlit("ha"); }
        },
        Language::Bashkir => {
            assert(Language::spec_from_code("ba"@) == Language::Bashkir) by { reveal_strlit("ba"); }
        },
        Language::Javanese => {
            assert(Language::spec_from_code("jw"@) == Language::Javanese) by { reveal_strlit("jw"); }
        },
        Language::Sundanese => {
            assert(Language::spec_from_code("su"@) == Language::Sundanese) by { reveal_strlit("su"); }
        },
    }
}

} // verus!
