//! Display names of common ISO 639-1/2 language codes, keeping unknown tags as written.
use vstd::prelude::*;
use crate::text::{lemma_split_first_piece, lemma_trimmed_twice, lemma_trimmed_unchanged, unicode_whitespace, joined, views, split_on, split_chars, lemma_split_nonempty, ascii_lower, ascii_upper, chars_of, extend_chars, lower_ascii_char, same_chars, string_of, trim, trimmed, upper_ascii_char};

verus! {

/// The English name of a primary language subtag, for the codes this client knows.
pub open spec fn language_name(tag: Seq<char>) -> Option<Seq<char>> {
    if tag == "en"@ || tag == "eng"@ {
        Some("English"@)
    } else if tag == "fr"@ || tag == "fra"@ || tag == "fre"@ {
        Some("French"@)
    } else if tag == "de"@ || tag == "deu"@ || tag == "ger"@ {
        Some("German"@)
    } else if tag == "es"@ || tag == "spa"@ {
        Some("Spanish"@)
    } else if tag == "pt"@ || tag == "por"@ {
        Some("Portuguese"@)
    } else if tag == "it"@ || tag == "ita"@ {
        Some("Italian"@)
    } else if tag == "ru"@ || tag == "rus"@ {
        Some("Russian"@)
    } else if tag == "uk"@ || tag == "ukr"@ {
        Some("Ukrainian"@)
    } else if tag == "ja"@ || tag == "jpn"@ {
        Some("Japanese"@)
    } else if tag == "ko"@ || tag == "kor"@ {
        Some("Korean"@)
    } else if tag == "zh"@ || tag == "zho"@ || tag == "chi"@ {
        Some("Chinese"@)
    } else if tag == "ar"@ || tag == "ara"@ {
        Some("Arabic"@)
    } else if tag == "hi"@ || tag == "hin"@ {
        Some("Hindi"@)
    } else if tag == "mr"@ || tag == "mar"@ {
        Some("Marathi"@)
    } else if tag == "ta"@ || tag == "tam"@ {
        Some("Tamil"@)
    } else if tag == "te"@ || tag == "tel"@ {
        Some("Telugu"@)
    } else if tag == "ml"@ || tag == "mal"@ {
        Some("Malayalam"@)
    } else if tag == "kn"@ || tag == "kan"@ {
        Some("Kannada"@)
    } else if tag == "bn"@ || tag == "ben"@ {
        Some("Bengali"@)
    } else if tag == "gu"@ || tag == "guj"@ {
        Some("Gujarati"@)
    } else if tag == "pa"@ || tag == "pan"@ {
        Some("Punjabi"@)
    } else if tag == "ur"@ || tag == "urd"@ {
        Some("Urdu"@)
    } else if tag == "or"@ || tag == "ori"@ {
        Some("Odia"@)
    } else if tag == "as"@ || tag == "asm"@ {
        Some("Assamese"@)
    } else if tag == "ne"@ || tag == "nep"@ {
        Some("Nepali"@)
    } else if tag == "si"@ || tag == "sin"@ {
        Some("Sinhala"@)
    } else if tag == "th"@ || tag == "tha"@ {
        Some("Thai"@)
    } else if tag == "vi"@ || tag == "vie"@ {
        Some("Vietnamese"@)
    } else if tag == "id"@ || tag == "ind"@ {
        Some("Indonesian"@)
    } else if tag == "ms"@ || tag == "msa"@ || tag == "may"@ {
        Some("Malay"@)
    } else if tag == "tl"@ || tag == "tgl"@ || tag == "fil"@ {
        Some("Filipino"@)
    } else if tag == "tr"@ || tag == "tur"@ {
        Some("Turkish"@)
    } else if tag == "fa"@ || tag == "fas"@ || tag == "per"@ {
        Some("Persian"@)
    } else if tag == "he"@ || tag == "heb"@ || tag == "iw"@ {
        Some("Hebrew"@)
    } else if tag == "pl"@ || tag == "pol"@ {
        Some("Polish"@)
    } else if tag == "nl"@ || tag == "nld"@ || tag == "dut"@ {
        Some("Dutch"@)
    } else if tag == "sv"@ || tag == "swe"@ {
        Some("Swedish"@)
    } else if tag == "no"@ || tag == "nor"@ {
        Some("Norwegian"@)
    } else if tag == "nb"@ || tag == "nob"@ {
        Some("Norwegian Bokmål"@)
    } else if tag == "nn"@ || tag == "nno"@ {
        Some("Norwegian Nynorsk"@)
    } else if tag == "da"@ || tag == "dan"@ {
        Some("Danish"@)
    } else if tag == "fi"@ || tag == "fin"@ {
        Some("Finnish"@)
    } else if tag == "el"@ || tag == "ell"@ || tag == "gre"@ {
        Some("Greek"@)
    } else if tag == "cs"@ || tag == "ces"@ || tag == "cze"@ {
        Some("Czech"@)
    } else if tag == "sk"@ || tag == "slk"@ || tag == "slo"@ {
        Some("Slovak"@)
    } else if tag == "hu"@ || tag == "hun"@ {
        Some("Hungarian"@)
    } else if tag == "ro"@ || tag == "ron"@ || tag == "rum"@ {
        Some("Romanian"@)
    } else if tag == "bg"@ || tag == "bul"@ {
        Some("Bulgarian"@)
    } else if tag == "hr"@ || tag == "hrv"@ {
        Some("Croatian"@)
    } else if tag == "sr"@ || tag == "srp"@ {
        Some("Serbian"@)
    } else if tag == "sl"@ || tag == "slv"@ {
        Some("Slovenian"@)
    } else if tag == "bs"@ || tag == "bos"@ {
        Some("Bosnian"@)
    } else if tag == "sq"@ || tag == "sqi"@ || tag == "alb"@ {
        Some("Albanian"@)
    } else if tag == "mk"@ || tag == "mkd"@ || tag == "mac"@ {
        Some("Macedonian"@)
    } else if tag == "et"@ || tag == "est"@ {
        Some("Estonian"@)
    } else if tag == "lv"@ || tag == "lav"@ {
        Some("Latvian"@)
    } else if tag == "lt"@ || tag == "lit"@ {
        Some("Lithuanian"@)
    } else if tag == "is"@ || tag == "isl"@ || tag == "ice"@ {
        Some("Icelandic"@)
    } else if tag == "ca"@ || tag == "cat"@ {
        Some("Catalan"@)
    } else if tag == "eu"@ || tag == "eus"@ || tag == "baq"@ {
        Some("Basque"@)
    } else if tag == "gl"@ || tag == "glg"@ {
        Some("Galician"@)
    } else if tag == "ka"@ || tag == "kat"@ || tag == "geo"@ {
        Some("Georgian"@)
    } else if tag == "hy"@ || tag == "hye"@ || tag == "arm"@ {
        Some("Armenian"@)
    } else if tag == "az"@ || tag == "aze"@ {
        Some("Azerbaijani"@)
    } else if tag == "kk"@ || tag == "kaz"@ {
        Some("Kazakh"@)
    } else if tag == "uz"@ || tag == "uzb"@ {
        Some("Uzbek"@)
    } else if tag == "sw"@ || tag == "swa"@ {
        Some("Swahili"@)
    } else if tag == "af"@ || tag == "afr"@ {
        Some("Afrikaans"@)
    } else if tag == "zu"@ || tag == "zul"@ {
        Some("Zulu"@)
    } else if tag == "und"@ {
        Some("Unspecified language"@)
    } else if tag == "mul"@ {
        Some("Multiple languages"@)
    } else if tag == "zxx"@ {
        Some("No spoken language"@)
    } else {
        None
    }
}

/// The display form of a region or script subtag.
pub open spec fn qualifier_name(tag: Seq<char>) -> Seq<char> {
    if tag == "us"@ {
        "United States"@
    } else if tag == "gb"@ {
        "United Kingdom"@
    } else if tag == "br"@ {
        "Brazil"@
    } else if tag == "pt"@ {
        "Portugal"@
    } else if tag == "ca"@ {
        "Canada"@
    } else if tag == "mx"@ {
        "Mexico"@
    } else if tag == "hans"@ {
        "Simplified"@
    } else if tag == "hant"@ {
        "Traditional"@
    } else if tag == "latn"@ {
        "Latin"@
    } else if tag == "cyrl"@ {
        "Cyrillic"@
    } else {
        tag.map_values(|c: char| ascii_upper(c))
    }
}

/// `code` trimmed, with `_` written as `-`, in ASCII lower case.
pub open spec fn normalized_code(code: Seq<char>) -> Seq<char> {
    trimmed(code).map_values(|c: char| ascii_lower(if c == '_' { '-' } else { c }))
}

/// How a language code is shown: the known language's name, followed by its region or
/// script subtags in parentheses; an empty code shows nothing; any other code is kept as
/// written, trimmed.
pub open spec fn language_display(code: Seq<char>) -> Seq<char> {
    let tags = split_on(normalized_code(code), '-');
    match language_name(tags[0]) {
        Some(name) => if tags.len() == 1 {
            name
        } else {
            name + " ("@ + joined(tags.skip(1).map_values(|t: Seq<char>| qualifier_name(t)), ", "@) + ")"@
        },
        None => if tags[0].len() == 0 {
            Seq::<char>::empty()
        } else {
            trimmed(code)
        },
    }
}

fn known_language(tag: &[char]) -> (r: Option<&'static str>)
    ensures
        match r {
            Some(name) => language_name(tag@) == Some(name@),
            None => language_name(tag@) is None,
        },
{
    if same_chars(tag, "en") || same_chars(tag, "eng") {
        Some("English")
    } else if same_chars(tag, "fr") || same_chars(tag, "fra") || same_chars(tag, "fre") {
        Some("French")
    } else if same_chars(tag, "de") || same_chars(tag, "deu") || same_chars(tag, "ger") {
        Some("German")
    } else if same_chars(tag, "es") || same_chars(tag, "spa") {
        Some("Spanish")
    } else if same_chars(tag, "pt") || same_chars(tag, "por") {
        Some("Portuguese")
    } else if same_chars(tag, "it") || same_chars(tag, "ita") {
        Some("Italian")
    } else if same_chars(tag, "ru") || same_chars(tag, "rus") {
        Some("Russian")
    } else if same_chars(tag, "uk") || same_chars(tag, "ukr") {
        Some("Ukrainian")
    } else if same_chars(tag, "ja") || same_chars(tag, "jpn") {
        Some("Japanese")
    } else if same_chars(tag, "ko") || same_chars(tag, "kor") {
        Some("Korean")
    } else if same_chars(tag, "zh") || same_chars(tag, "zho") || same_chars(tag, "chi") {
        Some("Chinese")
    } else if same_chars(tag, "ar") || same_chars(tag, "ara") {
        Some("Arabic")
    } else if same_chars(tag, "hi") || same_chars(tag, "hin") {
        Some("Hindi")
    } else if same_chars(tag, "mr") || same_chars(tag, "mar") {
        Some("Marathi")
    } else if same_chars(tag, "ta") || same_chars(tag, "tam") {
        Some("Tamil")
    } else if same_chars(tag, "te") || same_chars(tag, "tel") {
        Some("Telugu")
    } else if same_chars(tag, "ml") || same_chars(tag, "mal") {
        Some("Malayalam")
    } else if same_chars(tag, "kn") || same_chars(tag, "kan") {
        Some("Kannada")
    } else if same_chars(tag, "bn") || same_chars(tag, "ben") {
        Some("Bengali")
    } else if same_chars(tag, "gu") || same_chars(tag, "guj") {
        Some("Gujarati")
    } else if same_chars(tag, "pa") || same_chars(tag, "pan") {
        Some("Punjabi")
    } else if same_chars(tag, "ur") || same_chars(tag, "urd") {
        Some("Urdu")
    } else if same_chars(tag, "or") || same_chars(tag, "ori") {
        Some("Odia")
    } else if same_chars(tag, "as") || same_chars(tag, "asm") {
        Some("Assamese")
    } else if same_chars(tag, "ne") || same_chars(tag, "nep") {
        Some("Nepali")
    } else if same_chars(tag, "si") || same_chars(tag, "sin") {
        Some("Sinhala")
    } else if same_chars(tag, "th") || same_chars(tag, "tha") {
        Some("Thai")
    } else if same_chars(tag, "vi") || same_chars(tag, "vie") {
        Some("Vietnamese")
    } else if same_chars(tag, "id") || same_chars(tag, "ind") {
        Some("Indonesian")
    } else if same_chars(tag, "ms") || same_chars(tag, "msa") || same_chars(tag, "may") {
        Some("Malay")
    } else if same_chars(tag, "tl") || same_chars(tag, "tgl") || same_chars(tag, "fil") {
        Some("Filipino")
    } else if same_chars(tag, "tr") || same_chars(tag, "tur") {
        Some("Turkish")
    } else if same_chars(tag, "fa") || same_chars(tag, "fas") || same_chars(tag, "per") {
        Some("Persian")
    } else if same_chars(tag, "he") || same_chars(tag, "heb") || same_chars(tag, "iw") {
        Some("Hebrew")
    } else if same_chars(tag, "pl") || same_chars(tag, "pol") {
        Some("Polish")
    } else if same_chars(tag, "nl") || same_chars(tag, "nld") || same_chars(tag, "dut") {
        Some("Dutch")
    } else if same_chars(tag, "sv") || same_chars(tag, "swe") {
        Some("Swedish")
    } else if same_chars(tag, "no") || same_chars(tag, "nor") {
        Some("Norwegian")
    } else if same_chars(tag, "nb") || same_chars(tag, "nob") {
        Some("Norwegian Bokmål")
    } else if same_chars(tag, "nn") || same_chars(tag, "nno") {
        Some("Norwegian Nynorsk")
    } else if same_chars(tag, "da") || same_chars(tag, "dan") {
        Some("Danish")
    } else if same_chars(tag, "fi") || same_chars(tag, "fin") {
        Some("Finnish")
    } else if same_chars(tag, "el") || same_chars(tag, "ell") || same_chars(tag, "gre") {
        Some("Greek")
    } else if same_chars(tag, "cs") || same_chars(tag, "ces") || same_chars(tag, "cze") {
        Some("Czech")
    } else if same_chars(tag, "sk") || same_chars(tag, "slk") || same_chars(tag, "slo") {
        Some("Slovak")
    } else if same_chars(tag, "hu") || same_chars(tag, "hun") {
        Some("Hungarian")
    } else if same_chars(tag, "ro") || same_chars(tag, "ron") || same_chars(tag, "rum") {
        Some("Romanian")
    } else if same_chars(tag, "bg") || same_chars(tag, "bul") {
        Some("Bulgarian")
    } else if same_chars(tag, "hr") || same_chars(tag, "hrv") {
        Some("Croatian")
    } else if same_chars(tag, "sr") || same_chars(tag, "srp") {
        Some("Serbian")
    } else if same_chars(tag, "sl") || same_chars(tag, "slv") {
        Some("Slovenian")
    } else if same_chars(tag, "bs") || same_chars(tag, "bos") {
        Some("Bosnian")
    } else if same_chars(tag, "sq") || same_chars(tag, "sqi") || same_chars(tag, "alb") {
        Some("Albanian")
    } else if same_chars(tag, "mk") || same_chars(tag, "mkd") || same_chars(tag, "mac") {
        Some("Macedonian")
    } else if same_chars(tag, "et") || same_chars(tag, "est") {
        Some("Estonian")
    } else if same_chars(tag, "lv") || same_chars(tag, "lav") {
        Some("Latvian")
    } else if same_chars(tag, "lt") || same_chars(tag, "lit") {
        Some("Lithuanian")
    } else if same_chars(tag, "is") || same_chars(tag, "isl") || same_chars(tag, "ice") {
        Some("Icelandic")
    } else if same_chars(tag, "ca") || same_chars(tag, "cat") {
        Some("Catalan")
    } else if same_chars(tag, "eu") || same_chars(tag, "eus") || same_chars(tag, "baq") {
        Some("Basque")
    } else if same_chars(tag, "gl") || same_chars(tag, "glg") {
        Some("Galician")
    } else if same_chars(tag, "ka") || same_chars(tag, "kat") || same_chars(tag, "geo") {
        Some("Georgian")
    } else if same_chars(tag, "hy") || same_chars(tag, "hye") || same_chars(tag, "arm") {
        Some("Armenian")
    } else if same_chars(tag, "az") || same_chars(tag, "aze") {
        Some("Azerbaijani")
    } else if same_chars(tag, "kk") || same_chars(tag, "kaz") {
        Some("Kazakh")
    } else if same_chars(tag, "uz") || same_chars(tag, "uzb") {
        Some("Uzbek")
    } else if same_chars(tag, "sw") || same_chars(tag, "swa") {
        Some("Swahili")
    } else if same_chars(tag, "af") || same_chars(tag, "afr") {
        Some("Afrikaans")
    } else if same_chars(tag, "zu") || same_chars(tag, "zul") {
        Some("Zulu")
    } else if same_chars(tag, "und") {
        Some("Unspecified language")
    } else if same_chars(tag, "mul") {
        Some("Multiple languages")
    } else if same_chars(tag, "zxx") {
        Some("No spoken language")
    } else {
        None
    }
}

fn upper_ascii(tag: &[char]) -> (r: Vec<char>)
    ensures
        r@ == tag@.map_values(|c: char| ascii_upper(c)),
{
    let mut r: Vec<char> = Vec::new();
    let mut i: usize = 0;
    while i < tag.len()
        invariant
            i <= tag@.len(),
            r@ == tag@.subrange(0, i as int).map_values(|c: char| ascii_upper(c)),
        decreases tag@.len() - i,
    {
        r.push(upper_ascii_char(tag[i]));
        assert(tag@.subrange(0, i + 1).map_values(|c: char| ascii_upper(c))
            =~= tag@.subrange(0, i as int).map_values(|c: char| ascii_upper(c)).push(ascii_upper(tag@[i as int])));
        i = i + 1;
    }
    assert(tag@.subrange(0, tag@.len() as int) =~= tag@);
    r
}

fn qualifier(tag: &[char]) -> (r: Vec<char>)
    ensures
        r@ == qualifier_name(tag@),
{
    if same_chars(tag, "us") {
        chars_of("United States")
    } else if same_chars(tag, "gb") {
        chars_of("United Kingdom")
    } else if same_chars(tag, "br") {
        chars_of("Brazil")
    } else if same_chars(tag, "pt") {
        chars_of("Portugal")
    } else if same_chars(tag, "ca") {
        chars_of("Canada")
    } else if same_chars(tag, "mx") {
        chars_of("Mexico")
    } else if same_chars(tag, "hans") {
        chars_of("Simplified")
    } else if same_chars(tag, "hant") {
        chars_of("Traditional")
    } else if same_chars(tag, "latn") {
        chars_of("Latin")
    } else if same_chars(tag, "cyrl") {
        chars_of("Cyrillic")
    } else {
        upper_ascii(tag)
    }
}

fn normalize(code: &str) -> (r: Vec<char>)
    ensures
        r@ == normalized_code(code@),
{
    let chars = chars_of(code);
    let t = trim(chars.as_slice());
    let mut r: Vec<char> = Vec::new();
    let mut i: usize = 0;
    while i < t.len()
        invariant
            t@ == trimmed(code@),
            i <= t@.len(),
            r@ == t@.subrange(0, i as int).map_values(|c: char| ascii_lower(if c == '_' { '-' } else { c })),
        decreases t@.len() - i,
    {
        let c = t[i];
        let d = if c == '_' { '-' } else { c };
        r.push(lower_ascii_char(d));
        assert(t@.subrange(0, i + 1).map_values(|c: char| ascii_lower(if c == '_' { '-' } else { c }))
            =~= t@.subrange(0, i as int).map_values(|c: char| ascii_lower(if c == '_' { '-' } else { c })).push(
            ascii_lower(d)));
        i = i + 1;
    }
    assert(t@.subrange(0, t@.len() as int) =~= t@);
    r
}

/// Display common ISO 639-1/2 codes without discarding unknown language tags.
pub fn name(code: &str) -> (r: String)
    ensures
        r@ == language_display(code@),
{
    let normalized = normalize(code);
    let tags = split_chars(normalized.as_slice(), '-');
    let ghost tv = views(tags@);
    assert(tv.len() >= 1) by {
        lemma_split_nonempty(normalized@, '-');
    }
    assert(tv[0] == tags[0]@);
    let language = known_language(tags[0].as_slice());
    match language {
        None => {
            if tags[0].len() == 0 {
                String::new()
            } else {
                let chars = chars_of(code);
                let t = trim(chars.as_slice());
                string_of(t.as_slice())
            }
        },
        Some(language_text) => {
            let mut out = chars_of(language_text);
            if tags.len() == 1 {
                return string_of(out.as_slice());
            }
            let ghost quals = tv.skip(1).map_values(|t: Seq<char>| qualifier_name(t));
            let open = chars_of(" (");
            extend_chars(&mut out, open.as_slice());
            assert(tv[1] == tags[1]@);
            let first = qualifier(tags[1].as_slice());
            let mut list = first;
            let sep = chars_of(", ");
            let mut k: usize = 2;
            assert(tv.subrange(1, 2).map_values(|t: Seq<char>| qualifier_name(t)) =~= seq![qualifier_name(tv[1])]);
            while k < tags.len()
                invariant
                    tv == views(tags@),
                    2 <= k <= tv.len(),
                    sep@ == ", "@,
                    list@ == joined(tv.subrange(1, k as int).map_values(|t: Seq<char>| qualifier_name(t)), ", "@),
                decreases tv.len() - k,
            {
                assert(tv[k as int] == tags[k as int]@);
                let q = qualifier(tags[k].as_slice());
                let ghost prev = list@;
                extend_chars(&mut list, sep.as_slice());
                extend_chars(&mut list, q.as_slice());
                assert(tv.subrange(1, k + 1).map_values(|t: Seq<char>| qualifier_name(t)).drop_last()
                    =~= tv.subrange(1, k as int).map_values(|t: Seq<char>| qualifier_name(t)));
                k = k + 1;
            }
            assert(tv.subrange(1, tv.len() as int) =~= tv.skip(1));
            extend_chars(&mut out, list.as_slice());
            let close = chars_of(")");
            extend_chars(&mut out, close.as_slice());
            string_of(out.as_slice())
        },
    }
}

/// A known language is shown the same however its code is written: surrounding white space,
/// letter case and `_` for `-` do not change its name.
pub proof fn lemma_display_ignores_spelling(a: Seq<char>, b: Seq<char>)
    requires
        normalized_code(a) == normalized_code(b),
        language_name(split_on(normalized_code(a), '-')[0]) is Some,
    ensures
        language_display(a) == language_display(b),
{
}


/// Known subtags are two or three letters long; every known name is at least four characters
/// long, starts and ends with other than white space, and has no `-` or `_` in its first four.
proof fn lemma_known_names(tag: Seq<char>)
    ensures
        language_name(tag) is Some ==> 2 <= tag.len() <= 3,
        language_name(tag) matches Some(n) ==> n.len() >= 4 && !unicode_whitespace(n[0])
            && !unicode_whitespace(n.last())
            && forall|i: int| 0 <= i < 4 ==> n[i] != '-' && n[i] != '_',
{
    reveal_strlit("en");
    reveal_strlit("eng");
    reveal_strlit("fr");
    reveal_strlit("fra");
    reveal_strlit("fre");
    reveal_strlit("de");
    reveal_strlit("deu");
    reveal_strlit("ger");
    reveal_strlit("es");
    reveal_strlit("spa");
    reveal_strlit("pt");
    reveal_strlit("por");
    reveal_strlit("it");
    reveal_strlit("ita");
    reveal_strlit("ru");
    reveal_strlit("rus");
    reveal_strlit("uk");
    reveal_strlit("ukr");
    reveal_strlit("ja");
    reveal_strlit("jpn");
    reveal_strlit("ko");
    reveal_strlit("kor");
    reveal_strlit("zh");
    reveal_strlit("zho");
    reveal_strlit("chi");
    reveal_strlit("ar");
    reveal_strlit("ara");
    reveal_strlit("hi");
    reveal_strlit("hin");
    reveal_strlit("mr");
    reveal_strlit("mar");
    reveal_strlit("ta");
    reveal_strlit("tam");
    reveal_strlit("te");
    reveal_strlit("tel");
    reveal_strlit("ml");
    reveal_strlit("mal");
    reveal_strlit("kn");
    reveal_strlit("kan");
    reveal_strlit("bn");
    reveal_strlit("ben");
    reveal_strlit("gu");
    reveal_strlit("guj");
    reveal_strlit("pa");
    reveal_strlit("pan");
    reveal_strlit("ur");
    reveal_strlit("urd");
    reveal_strlit("or");
    reveal_strlit("ori");
    reveal_strlit("as");
    reveal_strlit("asm");
    reveal_strlit("ne");
    reveal_strlit("nep");
    reveal_strlit("si");
    reveal_strlit("sin");
    reveal_strlit("th");
    reveal_strlit("tha");
    reveal_strlit("vi");
    reveal_strlit("vie");
    reveal_strlit("id");
    reveal_strlit("ind");
    reveal_strlit("ms");
    reveal_strlit("msa");
    reveal_strlit("may");
    reveal_strlit("tl");
    reveal_strlit("tgl");
    reveal_strlit("fil");
    reveal_strlit("tr");
    reveal_strlit("tur");
    reveal_strlit("fa");
    reveal_strlit("fas");
    reveal_strlit("per");
    reveal_strlit("he");
    reveal_strlit("heb");
    reveal_strlit("iw");
    reveal_strlit("pl");
    reveal_strlit("pol");
    reveal_strlit("nl");
    reveal_strlit("nld");
    reveal_strlit("dut");
    reveal_strlit("sv");
    reveal_strlit("swe");
    reveal_strlit("no");
    reveal_strlit("nor");
    reveal_strlit("nb");
    reveal_strlit("nob");
    reveal_strlit("nn");
    reveal_strlit("nno");
    reveal_strlit("da");
    reveal_strlit("dan");
    reveal_strlit("fi");
    reveal_strlit("fin");
    reveal_strlit("el");
    reveal_strlit("ell");
    reveal_strlit("gre");
    reveal_strlit("cs");
    reveal_strlit("ces");
    reveal_strlit("cze");
    reveal_strlit("sk");
    reveal_strlit("slk");
    reveal_strlit("slo");
    reveal_strlit("hu");
    reveal_strlit("hun");
    reveal_strlit("ro");
    reveal_strlit("ron");
    reveal_strlit("rum");
    reveal_strlit("bg");
    reveal_strlit("bul");
    reveal_strlit("hr");
    reveal_strlit("hrv");
    reveal_strlit("sr");
    reveal_strlit("srp");
    reveal_strlit("sl");
    reveal_strlit("slv");
    reveal_strlit("bs");
    reveal_strlit("bos");
    reveal_strlit("sq");
    reveal_strlit("sqi");
    reveal_strlit("alb");
    reveal_strlit("mk");
    reveal_strlit("mkd");
    reveal_strlit("mac");
    reveal_strlit("et");
    reveal_strlit("est");
    reveal_strlit("lv");
    reveal_strlit("lav");
    reveal_strlit("lt");
    reveal_strlit("lit");
    reveal_strlit("is");
    reveal_strlit("isl");
    reveal_strlit("ice");
    reveal_strlit("ca");
    reveal_strlit("cat");
    reveal_strlit("eu");
    reveal_strlit("eus");
    reveal_strlit("baq");
    reveal_strlit("gl");
    reveal_strlit("glg");
    reveal_strlit("ka");
    reveal_strlit("kat");
    reveal_strlit("geo");
    reveal_strlit("hy");
    reveal_strlit("hye");
    reveal_strlit("arm");
    reveal_strlit("az");
    reveal_strlit("aze");
    reveal_strlit("kk");
    reveal_strlit("kaz");
    reveal_strlit("uz");
    reveal_strlit("uzb");
    reveal_strlit("sw");
    reveal_strlit("swa");
    reveal_strlit("af");
    reveal_strlit("afr");
    reveal_strlit("zu");
    reveal_strlit("zul");
    reveal_strlit("und");
    reveal_strlit("mul");
    reveal_strlit("zxx");
    reveal_strlit("Afrikaans");
    reveal_strlit("Albanian");
    reveal_strlit("Arabic");
    reveal_strlit("Armenian");
    reveal_strlit("Assamese");
    reveal_strlit("Azerbaijani");
    reveal_strlit("Basque");
    reveal_strlit("Bengali");
    reveal_strlit("Bosnian");
    reveal_strlit("Bulgarian");
    reveal_strlit("Catalan");
    reveal_strlit("Chinese");
    reveal_strlit("Croatian");
    reveal_strlit("Czech");
    reveal_strlit("Danish");
    reveal_strlit("Dutch");
    reveal_strlit("English");
    reveal_strlit("Estonian");
    reveal_strlit("Filipino");
    reveal_strlit("Finnish");
    reveal_strlit("French");
    reveal_strlit("Galician");
    reveal_strlit("Georgian");
    reveal_strlit("German");
    reveal_strlit("Greek");
    reveal_strlit("Gujarati");
    reveal_strlit("Hebrew");
    reveal_strlit("Hindi");
    reveal_strlit("Hungarian");
    reveal_strlit("Icelandic");
    reveal_strlit("Indonesian");
    reveal_strlit("Italian");
    reveal_strlit("Japanese");
    reveal_strlit("Kannada");
    reveal_strlit("Kazakh");
    reveal_strlit("Korean");
    reveal_strlit("Latvian");
    reveal_strlit("Lithuanian");
    reveal_strlit("Macedonian");
    reveal_strlit("Malay");
    reveal_strlit("Malayalam");
    reveal_strlit("Marathi");
    reveal_strlit("Multiple languages");
    reveal_strlit("Nepali");
    reveal_strlit("No spoken language");
    reveal_strlit("Norwegian");
    reveal_strlit("Norwegian Bokmål");
    reveal_strlit("Norwegian Nynorsk");
    reveal_strlit("Odia");
    reveal_strlit("Persian");
    reveal_strlit("Polish");
    reveal_strlit("Portuguese");
    reveal_strlit("Punjabi");
    reveal_strlit("Romanian");
    reveal_strlit("Russian");
    reveal_strlit("Serbian");
    reveal_strlit("Sinhala");
    reveal_strlit("Slovak");
    reveal_strlit("Slovenian");
    reveal_strlit("Spanish");
    reveal_strlit("Swahili");
    reveal_strlit("Swedish");
    reveal_strlit("Tamil");
    reveal_strlit("Telugu");
    reveal_strlit("Thai");
    reveal_strlit("Turkish");
    reveal_strlit("Ukrainian");
    reveal_strlit("Unspecified language");
    reveal_strlit("Urdu");
    reveal_strlit("Uzbek");
    reveal_strlit("Vietnamese");
    reveal_strlit("Zulu");
}

/// A shown language name is shown unchanged again: showing is idempotent, for known codes
/// and kept tags alike.
pub proof fn lemma_display_is_stable(code: Seq<char>)
    ensures
        language_display(language_display(code)) == language_display(code),
{
    let tags = split_on(normalized_code(code), '-');
    lemma_split_nonempty(normalized_code(code), '-');
    let d = language_display(code);
    lemma_known_names(tags[0]);
    match language_name(tags[0]) {
        Some(n) => {
            reveal_strlit(" (");
            reveal_strlit(")");
            assert(d[0] == n[0]);
            lemma_trimmed_unchanged(d);
            let nd = normalized_code(d);
            assert(forall|i: int| 0 <= i < 4 ==> nd[i] != '-') by {
                assert(forall|i: int| 0 <= i < 4 ==> d[i] == n[i]);
            }
            lemma_split_first_piece(nd, '-', 4);
            lemma_known_names(split_on(nd, '-')[0]);
        },
        None => {
            if tags[0].len() == 0 {
                assert(d =~= Seq::<char>::empty());
                assert(normalized_code(d) =~= Seq::<char>::empty());
                lemma_known_names(Seq::<char>::empty());
            } else {
                lemma_trimmed_twice(code);
                assert(normalized_code(d) =~= normalized_code(code));
            }
        },
    }
}


/// Each code names its own language: the ISO 639-1 code and its ISO 639-2 forms (both
/// bibliographic and terminological where they differ) give the language's English name.
pub proof fn lemma_language_table()
    ensures
        language_name("en"@) == Some("English"@),
        language_name("eng"@) == Some("English"@),
        language_name("fr"@) == Some("French"@),
        language_name("fra"@) == Some("French"@),
        language_name("fre"@) == Some("French"@),
        language_name("de"@) == Some("German"@),
        language_name("deu"@) == Some("German"@),
        language_name("ger"@) == Some("German"@),
        language_name("es"@) == Some("Spanish"@),
        language_name("spa"@) == Some("Spanish"@),
        language_name("pt"@) == Some("Portuguese"@),
        language_name("por"@) == Some("Portuguese"@),
        language_name("it"@) == Some("Italian"@),
        language_name("ita"@) == Some("Italian"@),
        language_name("ru"@) == Some("Russian"@),
        language_name("rus"@) == Some("Russian"@),
        language_name("uk"@) == Some("Ukrainian"@),
        language_name("ukr"@) == Some("Ukrainian"@),
        language_name("ja"@) == Some("Japanese"@),
        language_name("jpn"@) == Some("Japanese"@),
        language_name("ko"@) == Some("Korean"@),
        language_name("kor"@) == Some("Korean"@),
        language_name("zh"@) == Some("Chinese"@),
        language_name("zho"@) == Some("Chinese"@),
        language_name("chi"@) == Some("Chinese"@),
        language_name("ar"@) == Some("Arabic"@),
        language_name("ara"@) == Some("Arabic"@),
        language_name("hi"@) == Some("Hindi"@),
        language_name("hin"@) == Some("Hindi"@),
        language_name("mr"@) == Some("Marathi"@),
        language_name("mar"@) == Some("Marathi"@),
        language_name("ta"@) == Some("Tamil"@),
        language_name("tam"@) == Some("Tamil"@),
        language_name("te"@) == Some("Telugu"@),
        language_name("tel"@) == Some("Telugu"@),
        language_name("ml"@) == Some("Malayalam"@),
        language_name("mal"@) == Some("Malayalam"@),
        language_name("kn"@) == Some("Kannada"@),
        language_name("kan"@) == Some("Kannada"@),
        language_name("bn"@) == Some("Bengali"@),
        language_name("ben"@) == Some("Bengali"@),
        language_name("gu"@) == Some("Gujarati"@),
        language_name("guj"@) == Some("Gujarati"@),
        language_name("pa"@) == Some("Punjabi"@),
        language_name("pan"@) == Some("Punjabi"@),
        language_name("ur"@) == Some("Urdu"@),
        language_name("urd"@) == Some("Urdu"@),
        language_name("or"@) == Some("Odia"@),
        language_name("ori"@) == Some("Odia"@),
        language_name("as"@) == Some("Assamese"@),
        language_name("asm"@) == Some("Assamese"@),
        language_name("ne"@) == Some("Nepali"@),
        language_name("nep"@) == Some("Nepali"@),
        language_name("si"@) == Some("Sinhala"@),
        language_name("sin"@) == Some("Sinhala"@),
        language_name("th"@) == Some("Thai"@),
        language_name("tha"@) == Some("Thai"@),
        language_name("vi"@) == Some("Vietnamese"@),
        language_name("vie"@) == Some("Vietnamese"@),
        language_name("id"@) == Some("Indonesian"@),
        language_name("ind"@) == Some("Indonesian"@),
        language_name("ms"@) == Some("Malay"@),
        language_name("msa"@) == Some("Malay"@),
        language_name("may"@) == Some("Malay"@),
        language_name("tl"@) == Some("Filipino"@),
        language_name("tgl"@) == Some("Filipino"@),
        language_name("fil"@) == Some("Filipino"@),
        language_name("tr"@) == Some("Turkish"@),
        language_name("tur"@) == Some("Turkish"@),
        language_name("fa"@) == Some("Persian"@),
        language_name("fas"@) == Some("Persian"@),
        language_name("per"@) == Some("Persian"@),
        language_name("he"@) == Some("Hebrew"@),
        language_name("heb"@) == Some("Hebrew"@),
        language_name("iw"@) == Some("Hebrew"@),
        language_name("pl"@) == Some("Polish"@),
        language_name("pol"@) == Some("Polish"@),
        language_name("nl"@) == Some("Dutch"@),
        language_name("nld"@) == Some("Dutch"@),
        language_name("dut"@) == Some("Dutch"@),
        language_name("sv"@) == Some("Swedish"@),
        language_name("swe"@) == Some("Swedish"@),
        language_name("no"@) == Some("Norwegian"@),
        language_name("nor"@) == Some("Norwegian"@),
        language_name("nb"@) == Some("Norwegian Bokmål"@),
        language_name("nob"@) == Some("Norwegian Bokmål"@),
        language_name("nn"@) == Some("Norwegian Nynorsk"@),
        language_name("nno"@) == Some("Norwegian Nynorsk"@),
        language_name("da"@) == Some("Danish"@),
        language_name("dan"@) == Some("Danish"@),
        language_name("fi"@) == Some("Finnish"@),
        language_name("fin"@) == Some("Finnish"@),
        language_name("el"@) == Some("Greek"@),
        language_name("ell"@) == Some("Greek"@),
        language_name("gre"@) == Some("Greek"@),
        language_name("cs"@) == Some("Czech"@),
        language_name("ces"@) == Some("Czech"@),
        language_name("cze"@) == Some("Czech"@),
        language_name("sk"@) == Some("Slovak"@),
        language_name("slk"@) == Some("Slovak"@),
        language_name("slo"@) == Some("Slovak"@),
        language_name("hu"@) == Some("Hungarian"@),
        language_name("hun"@) == Some("Hungarian"@),
        language_name("ro"@) == Some("Romanian"@),
        language_name("ron"@) == Some("Romanian"@),
        language_name("rum"@) == Some("Romanian"@),
        language_name("bg"@) == Some("Bulgarian"@),
        language_name("bul"@) == Some("Bulgarian"@),
        language_name("hr"@) == Some("Croatian"@),
        language_name("hrv"@) == Some("Croatian"@),
        language_name("sr"@) == Some("Serbian"@),
        language_name("srp"@) == Some("Serbian"@),
        language_name("sl"@) == Some("Slovenian"@),
        language_name("slv"@) == Some("Slovenian"@),
        language_name("bs"@) == Some("Bosnian"@),
        language_name("bos"@) == Some("Bosnian"@),
        language_name("sq"@) == Some("Albanian"@),
        language_name("sqi"@) == Some("Albanian"@),
        language_name("alb"@) == Some("Albanian"@),
        language_name("mk"@) == Some("Macedonian"@),
        language_name("mkd"@) == Some("Macedonian"@),
        language_name("mac"@) == Some("Macedonian"@),
        language_name("et"@) == Some("Estonian"@),
        language_name("est"@) == Some("Estonian"@),
        language_name("lv"@) == Some("Latvian"@),
        language_name("lav"@) == Some("Latvian"@),
        language_name("lt"@) == Some("Lithuanian"@),
        language_name("lit"@) == Some("Lithuanian"@),
        language_name("is"@) == Some("Icelandic"@),
        language_name("isl"@) == Some("Icelandic"@),
        language_name("ice"@) == Some("Icelandic"@),
        language_name("ca"@) == Some("Catalan"@),
        language_name("cat"@) == Some("Catalan"@),
        language_name("eu"@) == Some("Basque"@),
        language_name("eus"@) == Some("Basque"@),
        language_name("baq"@) == Some("Basque"@),
        language_name("gl"@) == Some("Galician"@),
        language_name("glg"@) == Some("Galician"@),
        language_name("ka"@) == Some("Georgian"@),
        language_name("kat"@) == Some("Georgian"@),
        language_name("geo"@) == Some("Georgian"@),
        language_name("hy"@) == Some("Armenian"@),
        language_name("hye"@) == Some("Armenian"@),
        language_name("arm"@) == Some("Armenian"@),
        language_name("az"@) == Some("Azerbaijani"@),
        language_name("aze"@) == Some("Azerbaijani"@),
        language_name("kk"@) == Some("Kazakh"@),
        language_name("kaz"@) == Some("Kazakh"@),
        language_name("uz"@) == Some("Uzbek"@),
        language_name("uzb"@) == Some("Uzbek"@),
        language_name("sw"@) == Some("Swahili"@),
        language_name("swa"@) == Some("Swahili"@),
        language_name("af"@) == Some("Afrikaans"@),
        language_name("afr"@) == Some("Afrikaans"@),
        language_name("zu"@) == Some("Zulu"@),
        language_name("zul"@) == Some("Zulu"@),
        language_name("und"@) == Some("Unspecified language"@),
        language_name("mul"@) == Some("Multiple languages"@),
        language_name("zxx"@) == Some("No spoken language"@),
{
    reveal_strlit("en");
    assert("en"@.len() == 2 && "en"@[0] == 'e' && "en"@[1] == 'n');
    reveal_strlit("eng");
    assert("eng"@.len() == 3 && "eng"@[0] == 'e' && "eng"@[1] == 'n' && "eng"@[2] == 'g');
    reveal_strlit("fr");
    assert("fr"@.len() == 2 && "fr"@[0] == 'f' && "fr"@[1] == 'r');
    reveal_strlit("fra");
    assert("fra"@.len() == 3 && "fra"@[0] == 'f' && "fra"@[1] == 'r' && "fra"@[2] == 'a');
    reveal_strlit("fre");
    assert("fre"@.len() == 3 && "fre"@[0] == 'f' && "fre"@[1] == 'r' && "fre"@[2] == 'e');
    reveal_strlit("de");
    assert("de"@.len() == 2 && "de"@[0] == 'd' && "de"@[1] == 'e');
    reveal_strlit("deu");
    assert("deu"@.len() == 3 && "deu"@[0] == 'd' && "deu"@[1] == 'e' && "deu"@[2] == 'u');
    reveal_strlit("ger");
    assert("ger"@.len() == 3 && "ger"@[0] == 'g' && "ger"@[1] == 'e' && "ger"@[2] == 'r');
    reveal_strlit("es");
    assert("es"@.len() == 2 && "es"@[0] == 'e' && "es"@[1] == 's');
    reveal_strlit("spa");
    assert("spa"@.len() == 3 && "spa"@[0] == 's' && "spa"@[1] == 'p' && "spa"@[2] == 'a');
    reveal_strlit("pt");
    assert("pt"@.len() == 2 && "pt"@[0] == 'p' && "pt"@[1] == 't');
    reveal_strlit("por");
    assert("por"@.len() == 3 && "por"@[0] == 'p' && "por"@[1] == 'o' && "por"@[2] == 'r');
    reveal_strlit("it");
    assert("it"@.len() == 2 && "it"@[0] == 'i' && "it"@[1] == 't');
    reveal_strlit("ita");
    assert("ita"@.len() == 3 && "ita"@[0] == 'i' && "ita"@[1] == 't' && "ita"@[2] == 'a');
    reveal_strlit("ru");
    assert("ru"@.len() == 2 && "ru"@[0] == 'r' && "ru"@[1] == 'u');
    reveal_strlit("rus");
    assert("rus"@.len() == 3 && "rus"@[0] == 'r' && "rus"@[1] == 'u' && "rus"@[2] == 's');
    reveal_strlit("uk");
    assert("uk"@.len() == 2 && "uk"@[0] == 'u' && "uk"@[1] == 'k');
    reveal_strlit("ukr");
    assert("ukr"@.len() == 3 && "ukr"@[0] == 'u' && "ukr"@[1] == 'k' && "ukr"@[2] == 'r');
    reveal_strlit("ja");
    assert("ja"@.len() == 2 && "ja"@[0] == 'j' && "ja"@[1] == 'a');
    reveal_strlit("jpn");
    assert("jpn"@.len() == 3 && "jpn"@[0] == 'j' && "jpn"@[1] == 'p' && "jpn"@[2] == 'n');
    reveal_strlit("ko");
    assert("ko"@.len() == 2 && "ko"@[0] == 'k' && "ko"@[1] == 'o');
    reveal_strlit("kor");
    assert("kor"@.len() == 3 && "kor"@[0] == 'k' && "kor"@[1] == 'o' && "kor"@[2] == 'r');
    reveal_strlit("zh");
    assert("zh"@.len() == 2 && "zh"@[0] == 'z' && "zh"@[1] == 'h');
    reveal_strlit("zho");
    assert("zho"@.len() == 3 && "zho"@[0] == 'z' && "zho"@[1] == 'h' && "zho"@[2] == 'o');
    reveal_strlit("chi");
    assert("chi"@.len() == 3 && "chi"@[0] == 'c' && "chi"@[1] == 'h' && "chi"@[2] == 'i');
    reveal_strlit("ar");
    assert("ar"@.len() == 2 && "ar"@[0] == 'a' && "ar"@[1] == 'r');
    reveal_strlit("ara");
    assert("ara"@.len() == 3 && "ara"@[0] == 'a' && "ara"@[1] == 'r' && "ara"@[2] == 'a');
    reveal_strlit("hi");
    assert("hi"@.len() == 2 && "hi"@[0] == 'h' && "hi"@[1] == 'i');
    reveal_strlit("hin");
    assert("hin"@.len() == 3 && "hin"@[0] == 'h' && "hin"@[1] == 'i' && "hin"@[2] == 'n');
    reveal_strlit("mr");
    assert("mr"@.len() == 2 && "mr"@[0] == 'm' && "mr"@[1] == 'r');
    reveal_strlit("mar");
    assert("mar"@.len() == 3 && "mar"@[0] == 'm' && "mar"@[1] == 'a' && "mar"@[2] == 'r');
    reveal_strlit("ta");
    assert("ta"@.len() == 2 && "ta"@[0] == 't' && "ta"@[1] == 'a');
    reveal_strlit("tam");
    assert("tam"@.len() == 3 && "tam"@[0] == 't' && "tam"@[1] == 'a' && "tam"@[2] == 'm');
    reveal_strlit("te");
    assert("te"@.len() == 2 && "te"@[0] == 't' && "te"@[1] == 'e');
    reveal_strlit("tel");
    assert("tel"@.len() == 3 && "tel"@[0] == 't' && "tel"@[1] == 'e' && "tel"@[2] == 'l');
    reveal_strlit("ml");
    assert("ml"@.len() == 2 && "ml"@[0] == 'm' && "ml"@[1] == 'l');
    reveal_strlit("mal");
    assert("mal"@.len() == 3 && "mal"@[0] == 'm' && "mal"@[1] == 'a' && "mal"@[2] == 'l');
    reveal_strlit("kn");
    assert("kn"@.len() == 2 && "kn"@[0] == 'k' && "kn"@[1] == 'n');
    reveal_strlit("kan");
    assert("kan"@.len() == 3 && "kan"@[0] == 'k' && "kan"@[1] == 'a' && "kan"@[2] == 'n');
    reveal_strlit("bn");
    assert("bn"@.len() == 2 && "bn"@[0] == 'b' && "bn"@[1] == 'n');
    reveal_strlit("ben");
    assert("ben"@.len() == 3 && "ben"@[0] == 'b' && "ben"@[1] == 'e' && "ben"@[2] == 'n');
    reveal_strlit("gu");
    assert("gu"@.len() == 2 && "gu"@[0] == 'g' && "gu"@[1] == 'u');
    reveal_strlit("guj");
    assert("guj"@.len() == 3 && "guj"@[0] == 'g' && "guj"@[1] == 'u' && "guj"@[2] == 'j');
    reveal_strlit("pa");
    assert("pa"@.len() == 2 && "pa"@[0] == 'p' && "pa"@[1] == 'a');
    reveal_strlit("pan");
    assert("pan"@.len() == 3 && "pan"@[0] == 'p' && "pan"@[1] == 'a' && "pan"@[2] == 'n');
    reveal_strlit("ur");
    assert("ur"@.len() == 2 && "ur"@[0] == 'u' && "ur"@[1] == 'r');
    reveal_strlit("urd");
    assert("urd"@.len() == 3 && "urd"@[0] == 'u' && "urd"@[1] == 'r' && "urd"@[2] == 'd');
    reveal_strlit("or");
    assert("or"@.len() == 2 && "or"@[0] == 'o' && "or"@[1] == 'r');
    reveal_strlit("ori");
    assert("ori"@.len() == 3 && "ori"@[0] == 'o' && "ori"@[1] == 'r' && "ori"@[2] == 'i');
    reveal_strlit("as");
    assert("as"@.len() == 2 && "as"@[0] == 'a' && "as"@[1] == 's');
    reveal_strlit("asm");
    assert("asm"@.len() == 3 && "asm"@[0] == 'a' && "asm"@[1] == 's' && "asm"@[2] == 'm');
    reveal_strlit("ne");
    assert("ne"@.len() == 2 && "ne"@[0] == 'n' && "ne"@[1] == 'e');
    reveal_strlit("nep");
    assert("nep"@.len() == 3 && "nep"@[0] == 'n' && "nep"@[1] == 'e' && "nep"@[2] == 'p');
    reveal_strlit("si");
    assert("si"@.len() == 2 && "si"@[0] == 's' && "si"@[1] == 'i');
    reveal_strlit("sin");
    assert("sin"@.len() == 3 && "sin"@[0] == 's' && "sin"@[1] == 'i' && "sin"@[2] == 'n');
    reveal_strlit("th");
    assert("th"@.len() == 2 && "th"@[0] == 't' && "th"@[1] == 'h');
    reveal_strlit("tha");
    assert("tha"@.len() == 3 && "tha"@[0] == 't' && "tha"@[1] == 'h' && "tha"@[2] == 'a');
    reveal_strlit("vi");
    assert("vi"@.len() == 2 && "vi"@[0] == 'v' && "vi"@[1] == 'i');
    reveal_strlit("vie");
    assert("vie"@.len() == 3 && "vie"@[0] == 'v' && "vie"@[1] == 'i' && "vie"@[2] == 'e');
    reveal_strlit("id");
    assert("id"@.len() == 2 && "id"@[0] == 'i' && "id"@[1] == 'd');
    reveal_strlit("ind");
    assert("ind"@.len() == 3 && "ind"@[0] == 'i' && "ind"@[1] == 'n' && "ind"@[2] == 'd');
    reveal_strlit("ms");
    assert("ms"@.len() == 2 && "ms"@[0] == 'm' && "ms"@[1] == 's');
    reveal_strlit("msa");
    assert("msa"@.len() == 3 && "msa"@[0] == 'm' && "msa"@[1] == 's' && "msa"@[2] == 'a');
    reveal_strlit("may");
    assert("may"@.len() == 3 && "may"@[0] == 'm' && "may"@[1] == 'a' && "may"@[2] == 'y');
    reveal_strlit("tl");
    assert("tl"@.len() == 2 && "tl"@[0] == 't' && "tl"@[1] == 'l');
    reveal_strlit("tgl");
    assert("tgl"@.len() == 3 && "tgl"@[0] == 't' && "tgl"@[1] == 'g' && "tgl"@[2] == 'l');
    reveal_strlit("fil");
    assert("fil"@.len() == 3 && "fil"@[0] == 'f' && "fil"@[1] == 'i' && "fil"@[2] == 'l');
    reveal_strlit("tr");
    assert("tr"@.len() == 2 && "tr"@[0] == 't' && "tr"@[1] == 'r');
    reveal_strlit("tur");
    assert("tur"@.len() == 3 && "tur"@[0] == 't' && "tur"@[1] == 'u' && "tur"@[2] == 'r');
    reveal_strlit("fa");
    assert("fa"@.len() == 2 && "fa"@[0] == 'f' && "fa"@[1] == 'a');
    reveal_strlit("fas");
    assert("fas"@.len() == 3 && "fas"@[0] == 'f' && "fas"@[1] == 'a' && "fas"@[2] == 's');
    reveal_strlit("per");
    assert("per"@.len() == 3 && "per"@[0] == 'p' && "per"@[1] == 'e' && "per"@[2] == 'r');
    reveal_strlit("he");
    assert("he"@.len() == 2 && "he"@[0] == 'h' && "he"@[1] == 'e');
    reveal_strlit("heb");
    assert("heb"@.len() == 3 && "heb"@[0] == 'h' && "heb"@[1] == 'e' && "heb"@[2] == 'b');
    reveal_strlit("iw");
    assert("iw"@.len() == 2 && "iw"@[0] == 'i' && "iw"@[1] == 'w');
    reveal_strlit("pl");
    assert("pl"@.len() == 2 && "pl"@[0] == 'p' && "pl"@[1] == 'l');
    reveal_strlit("pol");
    assert("pol"@.len() == 3 && "pol"@[0] == 'p' && "pol"@[1] == 'o' && "pol"@[2] == 'l');
    reveal_strlit("nl");
    assert("nl"@.len() == 2 && "nl"@[0] == 'n' && "nl"@[1] == 'l');
    reveal_strlit("nld");
    assert("nld"@.len() == 3 && "nld"@[0] == 'n' && "nld"@[1] == 'l' && "nld"@[2] == 'd');
    reveal_strlit("dut");
    assert("dut"@.len() == 3 && "dut"@[0] == 'd' && "dut"@[1] == 'u' && "dut"@[2] == 't');
    reveal_strlit("sv");
    assert("sv"@.len() == 2 && "sv"@[0] == 's' && "sv"@[1] == 'v');
    reveal_strlit("swe");
    assert("swe"@.len() == 3 && "swe"@[0] == 's' && "swe"@[1] == 'w' && "swe"@[2] == 'e');
    reveal_strlit("no");
    assert("no"@.len() == 2 && "no"@[0] == 'n' && "no"@[1] == 'o');
    reveal_strlit("nor");
    assert("nor"@.len() == 3 && "nor"@[0] == 'n' && "nor"@[1] == 'o' && "nor"@[2] == 'r');
    reveal_strlit("nb");
    assert("nb"@.len() == 2 && "nb"@[0] == 'n' && "nb"@[1] == 'b');
    reveal_strlit("nob");
    assert("nob"@.len() == 3 && "nob"@[0] == 'n' && "nob"@[1] == 'o' && "nob"@[2] == 'b');
    reveal_strlit("nn");
    assert("nn"@.len() == 2 && "nn"@[0] == 'n' && "nn"@[1] == 'n');
    reveal_strlit("nno");
    assert("nno"@.len() == 3 && "nno"@[0] == 'n' && "nno"@[1] == 'n' && "nno"@[2] == 'o');
    reveal_strlit("da");
    assert("da"@.len() == 2 && "da"@[0] == 'd' && "da"@[1] == 'a');
    reveal_strlit("dan");
    assert("dan"@.len() == 3 && "dan"@[0] == 'd' && "dan"@[1] == 'a' && "dan"@[2] == 'n');
    reveal_strlit("fi");
    assert("fi"@.len() == 2 && "fi"@[0] == 'f' && "fi"@[1] == 'i');
    reveal_strlit("fin");
    assert("fin"@.len() == 3 && "fin"@[0] == 'f' && "fin"@[1] == 'i' && "fin"@[2] == 'n');
    reveal_strlit("el");
    assert("el"@.len() == 2 && "el"@[0] == 'e' && "el"@[1] == 'l');
    reveal_strlit("ell");
    assert("ell"@.len() == 3 && "ell"@[0] == 'e' && "ell"@[1] == 'l' && "ell"@[2] == 'l');
    reveal_strlit("gre");
    assert("gre"@.len() == 3 && "gre"@[0] == 'g' && "gre"@[1] == 'r' && "gre"@[2] == 'e');
    reveal_strlit("cs");
    assert("cs"@.len() == 2 && "cs"@[0] == 'c' && "cs"@[1] == 's');
    reveal_strlit("ces");
    assert("ces"@.len() == 3 && "ces"@[0] == 'c' && "ces"@[1] == 'e' && "ces"@[2] == 's');
    reveal_strlit("cze");
    assert("cze"@.len() == 3 && "cze"@[0] == 'c' && "cze"@[1] == 'z' && "cze"@[2] == 'e');
    reveal_strlit("sk");
    assert("sk"@.len() == 2 && "sk"@[0] == 's' && "sk"@[1] == 'k');
    reveal_strlit("slk");
    assert("slk"@.len() == 3 && "slk"@[0] == 's' && "slk"@[1] == 'l' && "slk"@[2] == 'k');
    reveal_strlit("slo");
    assert("slo"@.len() == 3 && "slo"@[0] == 's' && "slo"@[1] == 'l' && "slo"@[2] == 'o');
    reveal_strlit("hu");
    assert("hu"@.len() == 2 && "hu"@[0] == 'h' && "hu"@[1] == 'u');
    reveal_strlit("hun");
    assert("hun"@.len() == 3 && "hun"@[0] == 'h' && "hun"@[1] == 'u' && "hun"@[2] == 'n');
    reveal_strlit("ro");
    assert("ro"@.len() == 2 && "ro"@[0] == 'r' && "ro"@[1] == 'o');
    reveal_strlit("ron");
    assert("ron"@.len() == 3 && "ron"@[0] == 'r' && "ron"@[1] == 'o' && "ron"@[2] == 'n');
    reveal_strlit("rum");
    assert("rum"@.len() == 3 && "rum"@[0] == 'r' && "rum"@[1] == 'u' && "rum"@[2] == 'm');
    reveal_strlit("bg");
    assert("bg"@.len() == 2 && "bg"@[0] == 'b' && "bg"@[1] == 'g');
    reveal_strlit("bul");
    assert("bul"@.len() == 3 && "bul"@[0] == 'b' && "bul"@[1] == 'u' && "bul"@[2] == 'l');
    reveal_strlit("hr");
    assert("hr"@.len() == 2 && "hr"@[0] == 'h' && "hr"@[1] == 'r');
    reveal_strlit("hrv");
    assert("hrv"@.len() == 3 && "hrv"@[0] == 'h' && "hrv"@[1] == 'r' && "hrv"@[2] == 'v');
    reveal_strlit("sr");
    assert("sr"@.len() == 2 && "sr"@[0] == 's' && "sr"@[1] == 'r');
    reveal_strlit("srp");
    assert("srp"@.len() == 3 && "srp"@[0] == 's' && "srp"@[1] == 'r' && "srp"@[2] == 'p');
    reveal_strlit("sl");
    assert("sl"@.len() == 2 && "sl"@[0] == 's' && "sl"@[1] == 'l');
    reveal_strlit("slv");
    assert("slv"@.len() == 3 && "slv"@[0] == 's' && "slv"@[1] == 'l' && "slv"@[2] == 'v');
    reveal_strlit("bs");
    assert("bs"@.len() == 2 && "bs"@[0] == 'b' && "bs"@[1] == 's');
    reveal_strlit("bos");
    assert("bos"@.len() == 3 && "bos"@[0] == 'b' && "bos"@[1] == 'o' && "bos"@[2] == 's');
    reveal_strlit("sq");
    assert("sq"@.len() == 2 && "sq"@[0] == 's' && "sq"@[1] == 'q');
    reveal_strlit("sqi");
    assert("sqi"@.len() == 3 && "sqi"@[0] == 's' && "sqi"@[1] == 'q' && "sqi"@[2] == 'i');
    reveal_strlit("alb");
    assert("alb"@.len() == 3 && "alb"@[0] == 'a' && "alb"@[1] == 'l' && "alb"@[2] == 'b');
    reveal_strlit("mk");
    assert("mk"@.len() == 2 && "mk"@[0] == 'm' && "mk"@[1] == 'k');
    reveal_strlit("mkd");
    assert("mkd"@.len() == 3 && "mkd"@[0] == 'm' && "mkd"@[1] == 'k' && "mkd"@[2] == 'd');
    reveal_strlit("mac");
    assert("mac"@.len() == 3 && "mac"@[0] == 'm' && "mac"@[1] == 'a' && "mac"@[2] == 'c');
    reveal_strlit("et");
    assert("et"@.len() == 2 && "et"@[0] == 'e' && "et"@[1] == 't');
    reveal_strlit("est");
    assert("est"@.len() == 3 && "est"@[0] == 'e' && "est"@[1] == 's' && "est"@[2] == 't');
    reveal_strlit("lv");
    assert("lv"@.len() == 2 && "lv"@[0] == 'l' && "lv"@[1] == 'v');
    reveal_strlit("lav");
    assert("lav"@.len() == 3 && "lav"@[0] == 'l' && "lav"@[1] == 'a' && "lav"@[2] == 'v');
    reveal_strlit("lt");
    assert("lt"@.len() == 2 && "lt"@[0] == 'l' && "lt"@[1] == 't');
    reveal_strlit("lit");
    assert("lit"@.len() == 3 && "lit"@[0] == 'l' && "lit"@[1] == 'i' && "lit"@[2] == 't');
    reveal_strlit("is");
    assert("is"@.len() == 2 && "is"@[0] == 'i' && "is"@[1] == 's');
    reveal_strlit("isl");
    assert("isl"@.len() == 3 && "isl"@[0] == 'i' && "isl"@[1] == 's' && "isl"@[2] == 'l');
    reveal_strlit("ice");
    assert("ice"@.len() == 3 && "ice"@[0] == 'i' && "ice"@[1] == 'c' && "ice"@[2] == 'e');
    reveal_strlit("ca");
    assert("ca"@.len() == 2 && "ca"@[0] == 'c' && "ca"@[1] == 'a');
    reveal_strlit("cat");
    assert("cat"@.len() == 3 && "cat"@[0] == 'c' && "cat"@[1] == 'a' && "cat"@[2] == 't');
    reveal_strlit("eu");
    assert("eu"@.len() == 2 && "eu"@[0] == 'e' && "eu"@[1] == 'u');
    reveal_strlit("eus");
    assert("eus"@.len() == 3 && "eus"@[0] == 'e' && "eus"@[1] == 'u' && "eus"@[2] == 's');
    reveal_strlit("baq");
    assert("baq"@.len() == 3 && "baq"@[0] == 'b' && "baq"@[1] == 'a' && "baq"@[2] == 'q');
    reveal_strlit("gl");
    assert("gl"@.len() == 2 && "gl"@[0] == 'g' && "gl"@[1] == 'l');
    reveal_strlit("glg");
    assert("glg"@.len() == 3 && "glg"@[0] == 'g' && "glg"@[1] == 'l' && "glg"@[2] == 'g');
    reveal_strlit("ka");
    assert("ka"@.len() == 2 && "ka"@[0] == 'k' && "ka"@[1] == 'a');
    reveal_strlit("kat");
    assert("kat"@.len() == 3 && "kat"@[0] == 'k' && "kat"@[1] == 'a' && "kat"@[2] == 't');
    reveal_strlit("geo");
    assert("geo"@.len() == 3 && "geo"@[0] == 'g' && "geo"@[1] == 'e' && "geo"@[2] == 'o');
    reveal_strlit("hy");
    assert("hy"@.len() == 2 && "hy"@[0] == 'h' && "hy"@[1] == 'y');
    reveal_strlit("hye");
    assert("hye"@.len() == 3 && "hye"@[0] == 'h' && "hye"@[1] == 'y' && "hye"@[2] == 'e');
    reveal_strlit("arm");
    assert("arm"@.len() == 3 && "arm"@[0] == 'a' && "arm"@[1] == 'r' && "arm"@[2] == 'm');
    reveal_strlit("az");
    assert("az"@.len() == 2 && "az"@[0] == 'a' && "az"@[1] == 'z');
    reveal_strlit("aze");
    assert("aze"@.len() == 3 && "aze"@[0] == 'a' && "aze"@[1] == 'z' && "aze"@[2] == 'e');
    reveal_strlit("kk");
    assert("kk"@.len() == 2 && "kk"@[0] == 'k' && "kk"@[1] == 'k');
    reveal_strlit("kaz");
    assert("kaz"@.len() == 3 && "kaz"@[0] == 'k' && "kaz"@[1] == 'a' && "kaz"@[2] == 'z');
    reveal_strlit("uz");
    assert("uz"@.len() == 2 && "uz"@[0] == 'u' && "uz"@[1] == 'z');
    reveal_strlit("uzb");
    assert("uzb"@.len() == 3 && "uzb"@[0] == 'u' && "uzb"@[1] == 'z' && "uzb"@[2] == 'b');
    reveal_strlit("sw");
    assert("sw"@.len() == 2 && "sw"@[0] == 's' && "sw"@[1] == 'w');
    reveal_strlit("swa");
    assert("swa"@.len() == 3 && "swa"@[0] == 's' && "swa"@[1] == 'w' && "swa"@[2] == 'a');
    reveal_strlit("af");
    assert("af"@.len() == 2 && "af"@[0] == 'a' && "af"@[1] == 'f');
    reveal_strlit("afr");
    assert("afr"@.len() == 3 && "afr"@[0] == 'a' && "afr"@[1] == 'f' && "afr"@[2] == 'r');
    reveal_strlit("zu");
    assert("zu"@.len() == 2 && "zu"@[0] == 'z' && "zu"@[1] == 'u');
    reveal_strlit("zul");
    assert("zul"@.len() == 3 && "zul"@[0] == 'z' && "zul"@[1] == 'u' && "zul"@[2] == 'l');
    reveal_strlit("und");
    assert("und"@.len() == 3 && "und"@[0] == 'u' && "und"@[1] == 'n' && "und"@[2] == 'd');
    reveal_strlit("mul");
    assert("mul"@.len() == 3 && "mul"@[0] == 'm' && "mul"@[1] == 'u' && "mul"@[2] == 'l');
    reveal_strlit("zxx");
    assert("zxx"@.len() == 3 && "zxx"@[0] == 'z' && "zxx"@[1] == 'x' && "zxx"@[2] == 'x');
}

/// No other code is known: a tag gets a language name only when it is one of the codes of
/// the table above.
pub proof fn lemma_only_listed_codes_are_known(tag: Seq<char>)
    ensures
        language_name(tag) is Some ==> {
            ||| tag == "en"@
            ||| tag == "eng"@
            ||| tag == "fr"@
            ||| tag == "fra"@
            ||| tag == "fre"@
            ||| tag == "de"@
            ||| tag == "deu"@
            ||| tag == "ger"@
            ||| tag == "es"@
            ||| tag == "spa"@
            ||| tag == "pt"@
            ||| tag == "por"@
            ||| tag == "it"@
            ||| tag == "ita"@
            ||| tag == "ru"@
            ||| tag == "rus"@
            ||| tag == "uk"@
            ||| tag == "ukr"@
            ||| tag == "ja"@
            ||| tag == "jpn"@
            ||| tag == "ko"@
            ||| tag == "kor"@
            ||| tag == "zh"@
            ||| tag == "zho"@
            ||| tag == "chi"@
            ||| tag == "ar"@
            ||| tag == "ara"@
            ||| tag == "hi"@
            ||| tag == "hin"@
            ||| tag == "mr"@
            ||| tag == "mar"@
            ||| tag == "ta"@
            ||| tag == "tam"@
            ||| tag == "te"@
            ||| tag == "tel"@
            ||| tag == "ml"@
            ||| tag == "mal"@
            ||| tag == "kn"@
            ||| tag == "kan"@
            ||| tag == "bn"@
            ||| tag == "ben"@
            ||| tag == "gu"@
            ||| tag == "guj"@
            ||| tag == "pa"@
            ||| tag == "pan"@
            ||| tag == "ur"@
            ||| tag == "urd"@
            ||| tag == "or"@
            ||| tag == "ori"@
            ||| tag == "as"@
            ||| tag == "asm"@
            ||| tag == "ne"@
            ||| tag == "nep"@
            ||| tag == "si"@
            ||| tag == "sin"@
            ||| tag == "th"@
            ||| tag == "tha"@
            ||| tag == "vi"@
            ||| tag == "vie"@
            ||| tag == "id"@
            ||| tag == "ind"@
            ||| tag == "ms"@
            ||| tag == "msa"@
            ||| tag == "may"@
            ||| tag == "tl"@
            ||| tag == "tgl"@
            ||| tag == "fil"@
            ||| tag == "tr"@
            ||| tag == "tur"@
            ||| tag == "fa"@
            ||| tag == "fas"@
            ||| tag == "per"@
            ||| tag == "he"@
            ||| tag == "heb"@
            ||| tag == "iw"@
            ||| tag == "pl"@
            ||| tag == "pol"@
            ||| tag == "nl"@
            ||| tag == "nld"@
            ||| tag == "dut"@
            ||| tag == "sv"@
            ||| tag == "swe"@
            ||| tag == "no"@
            ||| tag == "nor"@
            ||| tag == "nb"@
            ||| tag == "nob"@
            ||| tag == "nn"@
            ||| tag == "nno"@
            ||| tag == "da"@
            ||| tag == "dan"@
            ||| tag == "fi"@
            ||| tag == "fin"@
            ||| tag == "el"@
            ||| tag == "ell"@
            ||| tag == "gre"@
            ||| tag == "cs"@
            ||| tag == "ces"@
            ||| tag == "cze"@
            ||| tag == "sk"@
            ||| tag == "slk"@
            ||| tag == "slo"@
            ||| tag == "hu"@
            ||| tag == "hun"@
            ||| tag == "ro"@
            ||| tag == "ron"@
            ||| tag == "rum"@
            ||| tag == "bg"@
            ||| tag == "bul"@
            ||| tag == "hr"@
            ||| tag == "hrv"@
            ||| tag == "sr"@
            ||| tag == "srp"@
            ||| tag == "sl"@
            ||| tag == "slv"@
            ||| tag == "bs"@
            ||| tag == "bos"@
            ||| tag == "sq"@
            ||| tag == "sqi"@
            ||| tag == "alb"@
            ||| tag == "mk"@
            ||| tag == "mkd"@
            ||| tag == "mac"@
            ||| tag == "et"@
            ||| tag == "est"@
            ||| tag == "lv"@
            ||| tag == "lav"@
            ||| tag == "lt"@
            ||| tag == "lit"@
            ||| tag == "is"@
            ||| tag == "isl"@
            ||| tag == "ice"@
            ||| tag == "ca"@
            ||| tag == "cat"@
            ||| tag == "eu"@
            ||| tag == "eus"@
            ||| tag == "baq"@
            ||| tag == "gl"@
            ||| tag == "glg"@
            ||| tag == "ka"@
            ||| tag == "kat"@
            ||| tag == "geo"@
            ||| tag == "hy"@
            ||| tag == "hye"@
            ||| tag == "arm"@
            ||| tag == "az"@
            ||| tag == "aze"@
            ||| tag == "kk"@
            ||| tag == "kaz"@
            ||| tag == "uz"@
            ||| tag == "uzb"@
            ||| tag == "sw"@
            ||| tag == "swa"@
            ||| tag == "af"@
            ||| tag == "afr"@
            ||| tag == "zu"@
            ||| tag == "zul"@
            ||| tag == "und"@
            ||| tag == "mul"@
            ||| tag == "zxx"@
        },
{
}

} // verus!
