//! Short codes for the languages of keyboard layouts.

use vstd::prelude::*;
use vstd::string::*;
use crate::text::{self, ascii, ascii_lowered, lowercase};

verus! {

/// A language and the code that stands for it.
#[derive(Clone, Copy, Debug)]
pub struct LayoutEntry {
    pub code: &'static str,
    pub language: &'static str,
}

/// The languages that have a code.
pub open spec fn languages() -> Seq<LayoutEntry> {
    seq![
        LayoutEntry { code: "SE", language: "Swedish" },
        LayoutEntry { code: "NO", language: "Norwegian" },
        LayoutEntry { code: "DK", language: "Danish" },
        LayoutEntry { code: "FI", language: "Finnish" },
        LayoutEntry { code: "DE", language: "German" },
        LayoutEntry { code: "FR", language: "French" },
        LayoutEntry { code: "GB", language: "English" },
        LayoutEntry { code: "ES", language: "Spanish" },
        LayoutEntry { code: "IT", language: "Italian" },
        LayoutEntry { code: "PT", language: "Portuguese" },
        LayoutEntry { code: "NL", language: "Dutch" },
        LayoutEntry { code: "BE", language: "Belgian" },
        LayoutEntry { code: "CH", language: "Swiss" },
        LayoutEntry { code: "AT", language: "Austrian" },
        LayoutEntry { code: "PL", language: "Polish" },
        LayoutEntry { code: "CZ", language: "Czech" },
        LayoutEntry { code: "HU", language: "Hungarian" },
        LayoutEntry { code: "RO", language: "Romanian" },
        LayoutEntry { code: "UA", language: "Ukrainian" },
        LayoutEntry { code: "RU", language: "Russian" },
        LayoutEntry { code: "CA", language: "Canadian" },
        LayoutEntry { code: "TR", language: "Turkish" },
        LayoutEntry { code: "IL", language: "Hebrew" },
        LayoutEntry { code: "AR", language: "Arabic" },
        LayoutEntry { code: "JP", language: "Japanese" },
        LayoutEntry { code: "KR", language: "Korean" },
        LayoutEntry { code: "CN", language: "Chinese" },
        LayoutEntry { code: "ID", language: "Indonesian" },
        LayoutEntry { code: "UZ", language: "Uzbek" },
    ]
}

/// The languages that have a code.
pub fn layouts() -> (entries: Vec<LayoutEntry>)
    ensures
        entries@ == languages(),
{
    let mut entries: Vec<LayoutEntry> = Vec::new();
    entries.push(LayoutEntry { code: "SE", language: "Swedish" });
    entries.push(LayoutEntry { code: "NO", language: "Norwegian" });
    entries.push(LayoutEntry { code: "DK", language: "Danish" });
    entries.push(LayoutEntry { code: "FI", language: "Finnish" });
    entries.push(LayoutEntry { code: "DE", language: "German" });
    entries.push(LayoutEntry { code: "FR", language: "French" });
    entries.push(LayoutEntry { code: "GB", language: "English" });
    entries.push(LayoutEntry { code: "ES", language: "Spanish" });
    entries.push(LayoutEntry { code: "IT", language: "Italian" });
    entries.push(LayoutEntry { code: "PT", language: "Portuguese" });
    entries.push(LayoutEntry { code: "NL", language: "Dutch" });
    entries.push(LayoutEntry { code: "BE", language: "Belgian" });
    entries.push(LayoutEntry { code: "CH", language: "Swiss" });
    entries.push(LayoutEntry { code: "AT", language: "Austrian" });
    entries.push(LayoutEntry { code: "PL", language: "Polish" });
    entries.push(LayoutEntry { code: "CZ", language: "Czech" });
    entries.push(LayoutEntry { code: "HU", language: "Hungarian" });
    entries.push(LayoutEntry { code: "RO", language: "Romanian" });
    entries.push(LayoutEntry { code: "UA", language: "Ukrainian" });
    entries.push(LayoutEntry { code: "RU", language: "Russian" });
    entries.push(LayoutEntry { code: "CA", language: "Canadian" });
    entries.push(LayoutEntry { code: "TR", language: "Turkish" });
    entries.push(LayoutEntry { code: "IL", language: "Hebrew" });
    entries.push(LayoutEntry { code: "AR", language: "Arabic" });
    entries.push(LayoutEntry { code: "JP", language: "Japanese" });
    entries.push(LayoutEntry { code: "KR", language: "Korean" });
    entries.push(LayoutEntry { code: "CN", language: "Chinese" });
    entries.push(LayoutEntry { code: "ID", language: "Indonesian" });
    entries.push(LayoutEntry { code: "UZ", language: "Uzbek" });
    proof {
        assert(entries@ =~= languages());
    }
    entries
}

proof fn lemma_languages_are_ascii(i: int)
    requires
        0 <= i < languages().len(),
    ensures
        ascii(languages()[i].language@),
{
    reveal_strlit("Swedish");
    reveal_strlit("Norwegian");
    reveal_strlit("Danish");
    reveal_strlit("Finnish");
    reveal_strlit("German");
    reveal_strlit("French");
    reveal_strlit("English");
    reveal_strlit("Spanish");
    reveal_strlit("Italian");
    reveal_strlit("Portuguese");
    reveal_strlit("Dutch");
    reveal_strlit("Belgian");
    reveal_strlit("Swiss");
    reveal_strlit("Austrian");
    reveal_strlit("Polish");
    reveal_strlit("Czech");
    reveal_strlit("Hungarian");
    reveal_strlit("Romanian");
    reveal_strlit("Ukrainian");
    reveal_strlit("Russian");
    reveal_strlit("Canadian");
    reveal_strlit("Turkish");
    reveal_strlit("Hebrew");
    reveal_strlit("Arabic");
    reveal_strlit("Japanese");
    reveal_strlit("Korean");
    reveal_strlit("Chinese");
    reveal_strlit("Indonesian");
    reveal_strlit("Uzbek");
}

/// Codes are two capital letters, and languages begin with a capital letter.
pub proof fn entries_are_capitalized(i: int)
    requires
        0 <= i < languages().len(),
    ensures
        languages()[i].code@.len() == 2,
        'A' <= languages()[i].code@[0] <= 'Z',
        'A' <= languages()[i].code@[1] <= 'Z',
        languages()[i].language@.len() > 0,
        'A' <= languages()[i].language@[0] <= 'Z',
{
    reveal_strlit("SE");
    reveal_strlit("NO");
    reveal_strlit("DK");
    reveal_strlit("FI");
    reveal_strlit("DE");
    reveal_strlit("FR");
    reveal_strlit("GB");
    reveal_strlit("ES");
    reveal_strlit("IT");
    reveal_strlit("PT");
    reveal_strlit("NL");
    reveal_strlit("BE");
    reveal_strlit("CH");
    reveal_strlit("AT");
    reveal_strlit("PL");
    reveal_strlit("CZ");
    reveal_strlit("HU");
    reveal_strlit("RO");
    reveal_strlit("UA");
    reveal_strlit("RU");
    reveal_strlit("CA");
    reveal_strlit("TR");
    reveal_strlit("IL");
    reveal_strlit("AR");
    reveal_strlit("JP");
    reveal_strlit("KR");
    reveal_strlit("CN");
    reveal_strlit("ID");
    reveal_strlit("UZ");
    reveal_strlit("Swedish");
    reveal_strlit("Norwegian");
    reveal_strlit("Danish");
    reveal_strlit("Finnish");
    reveal_strlit("German");
    reveal_strlit("French");
    reveal_strlit("English");
    reveal_strlit("Spanish");
    reveal_strlit("Italian");
    reveal_strlit("Portuguese");
    reveal_strlit("Dutch");
    reveal_strlit("Belgian");
    reveal_strlit("Swiss");
    reveal_strlit("Austrian");
    reveal_strlit("Polish");
    reveal_strlit("Czech");
    reveal_strlit("Hungarian");
    reveal_strlit("Romanian");
    reveal_strlit("Ukrainian");
    reveal_strlit("Russian");
    reveal_strlit("Canadian");
    reveal_strlit("Turkish");
    reveal_strlit("Hebrew");
    reveal_strlit("Arabic");
    reveal_strlit("Japanese");
    reveal_strlit("Korean");
    reveal_strlit("Chinese");
    reveal_strlit("Indonesian");
    reveal_strlit("Uzbek");
}

/// No two languages share a code.
pub proof fn codes_are_unambiguous(i: int, j: int)
    requires
        0 <= i < languages().len(),
        0 <= j < languages().len(),
        languages()[i].code@ == languages()[j].code@,
    ensures
        i == j,
{
    reveal_strlit("SE");
    reveal_strlit("NO");
    reveal_strlit("DK");
    reveal_strlit("FI");
    reveal_strlit("DE");
    reveal_strlit("FR");
    reveal_strlit("GB");
    reveal_strlit("ES");
    reveal_strlit("IT");
    reveal_strlit("PT");
    reveal_strlit("NL");
    reveal_strlit("BE");
    reveal_strlit("CH");
    reveal_strlit("AT");
    reveal_strlit("PL");
    reveal_strlit("CZ");
    reveal_strlit("HU");
    reveal_strlit("RO");
    reveal_strlit("UA");
    reveal_strlit("RU");
    reveal_strlit("CA");
    reveal_strlit("TR");
    reveal_strlit("IL");
    reveal_strlit("AR");
    reveal_strlit("JP");
    reveal_strlit("KR");
    reveal_strlit("CN");
    reveal_strlit("ID");
    reveal_strlit("UZ");
    let a = languages()[i].code@;
    let b = languages()[j].code@;
    assert(a[0] == b[0] && a[1] == b[1]);
}

/// The code of the first entry whose language, in lower case, is `lowered`.
pub open spec fn first_code(entries: Seq<LayoutEntry>, lowered: Seq<char>) -> Option<&'static str>
    decreases entries.len(),
{
    if entries.len() == 0 {
        None
    } else if ascii_lowered(entries[0].language@) == lowered {
        Some(entries[0].code)
    } else {
        first_code(entries.drop_first(), lowered)
    }
}

/// The code of the language whose name in lower case is `lowered`.
pub fn code_of_lowered(lowered: &str) -> (code: Option<&'static str>)
    ensures
        code == first_code(languages(), lowered@),
{
    let entries = layouts();
    let mut i: usize = 0;
    proof {
        assert(entries@.skip(0) =~= entries@);
    }
    while i < entries.len()
        invariant
            i <= entries@.len(),
            entries@ == languages(),
            first_code(entries@, lowered@) == first_code(entries@.skip(i as int), lowered@),
        decreases entries@.len() - i,
    {
        proof {
            assert(entries@.skip(i as int).drop_first() =~= entries@.skip(i + 1));
            lemma_languages_are_ascii(i as int);
        }
        let language = text::to_lowercase(entries[i].language);
        if text::str_eq(language.as_str(), lowered) {
            return Some(entries[i].code);
        }
        i += 1;
    }
    None
}

/// The code of a language, in whatever case its English name is written. Names such as `English`
/// do not tell one keyboard layout, so a code in parentheses is to be preferred.
pub fn short_code_from_language(name: &str) -> (code: Option<&'static str>)
    ensures
        code == first_code(languages(), lowercase(name@)),
        ascii(name@) ==> code == first_code(languages(), ascii_lowered(name@)),
{
    let lowered = text::to_lowercase(name);
    code_of_lowered(lowered.as_str())
}

/// The code of a language is that of the first entry with its name, in whatever case the name is written.
pub proof fn languages_are_found_by_name(entries: Seq<LayoutEntry>, lowered: Seq<char>, i: int)
    ensures
        0 <= i < entries.len() && ascii_lowered(entries[i].language@) == lowered && (forall|k: int|
            0 <= k < i ==> ascii_lowered((#[trigger] entries[k]).language@) != lowered) ==> first_code(entries, lowered)
            == Some(entries[i].code),
        (forall|k: int| 0 <= k < entries.len() ==> ascii_lowered((#[trigger] entries[k]).language@) != lowered)
            ==> first_code(entries, lowered) is None,
    decreases entries.len(),
{
    if entries.len() > 0 {
        let rest = entries.drop_first();
        languages_are_found_by_name(rest, lowered, i - 1);
        assert(forall|k: int| 0 <= k < rest.len() ==> #[trigger] rest[k] == entries[k + 1]);
        if 0 < i < entries.len() {
            assert(rest[i - 1] == entries[i]);
            assert(entries[0] == entries[0]);
        }
    }
}

/// Whether a code stands for a language.
pub open spec fn stands_for(code: &'static str, language: &'static str) -> bool {
    languages().contains(LayoutEntry { code, language })
}

/// Each language has the code of the country that it is at home in; there are no other codes.
pub proof fn codes_stand_for_their_languages()
    ensures
        languages().len() == 29,
        stands_for("SE", "Swedish"),
        stands_for("NO", "Norwegian"),
        stands_for("DK", "Danish"),
        stands_for("FI", "Finnish"),
        stands_for("DE", "German"),
        stands_for("FR", "French"),
        stands_for("GB", "English"),
        stands_for("ES", "Spanish"),
        stands_for("IT", "Italian"),
        stands_for("PT", "Portuguese"),
        stands_for("NL", "Dutch"),
        stands_for("BE", "Belgian"),
        stands_for("CH", "Swiss"),
        stands_for("AT", "Austrian"),
        stands_for("PL", "Polish"),
        stands_for("CZ", "Czech"),
        stands_for("HU", "Hungarian"),
        stands_for("RO", "Romanian"),
        stands_for("UA", "Ukrainian"),
        stands_for("RU", "Russian"),
        stands_for("CA", "Canadian"),
        stands_for("TR", "Turkish"),
        stands_for("IL", "Hebrew"),
        stands_for("AR", "Arabic"),
        stands_for("JP", "Japanese"),
        stands_for("KR", "Korean"),
        stands_for("CN", "Chinese"),
        stands_for("ID", "Indonesian"),
        stands_for("UZ", "Uzbek"),
{
    let all = languages();
    assert(all[0] == (LayoutEntry { code: "SE", language: "Swedish" }));
    assert(all[1] == (LayoutEntry { code: "NO", language: "Norwegian" }));
    assert(all[2] == (LayoutEntry { code: "DK", language: "Danish" }));
    assert(all[3] == (LayoutEntry { code: "FI", language: "Finnish" }));
    assert(all[4] == (LayoutEntry { code: "DE", language: "German" }));
    assert(all[5] == (LayoutEntry { code: "FR", language: "French" }));
    assert(all[6] == (LayoutEntry { code: "GB", language: "English" }));
    assert(all[7] == (LayoutEntry { code: "ES", language: "Spanish" }));
    assert(all[8] == (LayoutEntry { code: "IT", language: "Italian" }));
    assert(all[9] == (LayoutEntry { code: "PT", language: "Portuguese" }));
    assert(all[10] == (LayoutEntry { code: "NL", language: "Dutch" }));
    assert(all[11] == (LayoutEntry { code: "BE", language: "Belgian" }));
    assert(all[12] == (LayoutEntry { code: "CH", language: "Swiss" }));
    assert(all[13] == (LayoutEntry { code: "AT", language: "Austrian" }));
    assert(all[14] == (LayoutEntry { code: "PL", language: "Polish" }));
    assert(all[15] == (LayoutEntry { code: "CZ", language: "Czech" }));
    assert(all[16] == (LayoutEntry { code: "HU", language: "Hungarian" }));
    assert(all[17] == (LayoutEntry { code: "RO", language: "Romanian" }));
    assert(all[18] == (LayoutEntry { code: "UA", language: "Ukrainian" }));
    assert(all[19] == (LayoutEntry { code: "RU", language: "Russian" }));
    assert(all[20] == (LayoutEntry { code: "CA", language: "Canadian" }));
    assert(all[21] == (LayoutEntry { code: "TR", language: "Turkish" }));
    assert(all[22] == (LayoutEntry { code: "IL", language: "Hebrew" }));
    assert(all[23] == (LayoutEntry { code: "AR", language: "Arabic" }));
    assert(all[24] == (LayoutEntry { code: "JP", language: "Japanese" }));
    assert(all[25] == (LayoutEntry { code: "KR", language: "Korean" }));
    assert(all[26] == (LayoutEntry { code: "CN", language: "Chinese" }));
    assert(all[27] == (LayoutEntry { code: "ID", language: "Indonesian" }));
    assert(all[28] == (LayoutEntry { code: "UZ", language: "Uzbek" }));
}

} // verus!
