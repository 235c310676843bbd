//! Language names and devices, as the Qwen worker expects them.

use crate::settings::QwenDeviceSetting;
use crate::text::same_text;
use vstd::prelude::*;

verus! {

/// The language codes with an English name that the worker does not map
/// itself, and these names.
pub open spec fn language_names() -> Seq<(Seq<char>, Seq<char>)> {
    seq![
        ("zh"@, "Chinese"@),
        ("zh-Hans"@, "Chinese"@),
        ("zh-Hant"@, "Chinese"@),
        ("ja"@, "Japanese"@),
        ("ko"@, "Korean"@),
        ("de"@, "German"@),
        ("fr"@, "French"@),
        ("es"@, "Spanish"@),
        ("it"@, "Italian"@),
        ("pt"@, "Portuguese"@),
        ("nl"@, "Dutch"@),
        ("pl"@, "Polish"@),
        ("sv"@, "Swedish"@),
        ("da"@, "Danish"@),
        ("no"@, "Norwegian"@),
        ("nb"@, "Norwegian"@),
        ("fi"@, "Finnish"@),
        ("el"@, "Greek"@),
        ("cs"@, "Czech"@),
        ("ro"@, "Romanian"@),
        ("hu"@, "Hungarian"@),
        ("ar"@, "Arabic"@),
        ("ru"@, "Russian"@),
        ("tr"@, "Turkish"@),
        ("hi"@, "Hindi"@),
        ("vi"@, "Vietnamese"@),
        ("id"@, "Indonesian"@),
        ("th"@, "Thai"@),
        ("ms"@, "Malay"@),
        ("uk"@, "Ukrainian"@),
        ("he"@, "Hebrew"@),
    ]
}

/// The name of a code in a table, by its first entry; a code that is not in
/// the table stands for itself.
pub open spec fn name_in(table: Seq<(Seq<char>, Seq<char>)>, code: Seq<char>) -> Seq<char>
    decreases table.len(),
{
    if table.len() == 0 {
        code
    } else if table[0].0 == code {
        table[0].1
    } else {
        name_in(table.drop_first(), code)
    }
}

/// What the worker is told for a language code: `auto` for itself, the English
/// name of a code that has one, and any other code as it is.
pub open spec fn worker_language(code: Seq<char>) -> Seq<char> {
    if code == "auto"@ {
        "auto"@
    } else {
        name_in(language_names(), code)
    }
}

fn language_table() -> (r: Vec<(&'static str, &'static str)>)
    ensures
        r@.len() == language_names().len(),
        forall|i: int|
            0 <= i < r@.len() ==> language_names()[i] == ((#[trigger] r@[i]).0@, r@[i].1@),
{
    vec![
        ("zh", "Chinese"),
        ("zh-Hans", "Chinese"),
        ("zh-Hant", "Chinese"),
        ("ja", "Japanese"),
        ("ko", "Korean"),
        ("de", "German"),
        ("fr", "French"),
        ("es", "Spanish"),
        ("it", "Italian"),
        ("pt", "Portuguese"),
        ("nl", "Dutch"),
        ("pl", "Polish"),
        ("sv", "Swedish"),
        ("da", "Danish"),
        ("no", "Norwegian"),
        ("nb", "Norwegian"),
        ("fi", "Finnish"),
        ("el", "Greek"),
        ("cs", "Czech"),
        ("ro", "Romanian"),
        ("hu", "Hungarian"),
        ("ar", "Arabic"),
        ("ru", "Russian"),
        ("tr", "Turkish"),
        ("hi", "Hindi"),
        ("vi", "Vietnamese"),
        ("id", "Indonesian"),
        ("th", "Thai"),
        ("ms", "Malay"),
        ("uk", "Ukrainian"),
        ("he", "Hebrew"),
    ]
}

/// Map ISO language codes onto the English names that the worker expects.
/// `auto` asks for detection, and unknown codes pass through verbatim.
pub fn map_language(code: &str) -> (r: String)
    ensures
        r@ == worker_language(code@),
{
    if same_text(code, "auto") {
        return "auto".to_string();
    }
    let table = language_table();
    let ghost names = language_names();
    proof {
        assert(names.skip(0) =~= names);
    }
    let mut i: usize = 0;
    while i < table.len()
        invariant
            i <= table@.len(),
            table@.len() == names.len(),
            forall|k: int|
                0 <= k < table@.len() ==> names[k] == ((#[trigger] table@[k]).0@, table@[k].1@),
            names == language_names(),
            code@ != "auto"@,
            name_in(names, code@) == name_in(names.skip(i as int), code@),
        decreases table@.len() - i,
    {
        proof {
            assert(names.skip(i as int).drop_first() =~= names.skip(i + 1));
            assert(names.skip(i as int)[0] == (table@[i as int].0@, table@[i as int].1@));
        }
        let (iso, name) = table[i];
        if same_text(iso, code) {
            return name.to_string();
        }
        i += 1;
    }
    code.to_string()
}

/// A code that no entry has passes through verbatim.
pub proof fn law_unknown_code_passes_through(table: Seq<(Seq<char>, Seq<char>)>, code: Seq<char>)
    requires
        forall|i: int| 0 <= i < table.len() ==> (#[trigger] table[i]).0 != code,
    ensures
        name_in(table, code) == code,
    decreases table.len(),
{
    if table.len() > 0 {
        let rest = table.drop_first();
        assert(table[0].0 != code);
        assert forall|i: int| 0 <= i < rest.len() implies (#[trigger] rest[i]).0 != code by {
            assert(rest[i] == table[i + 1]);
        }
        law_unknown_code_passes_through(rest, code);
    }
}

/// Resolve the configured device to what the worker understands. `Auto` picks
/// CUDA where an NVIDIA GPU with a working driver is present; an explicit
/// choice is kept whatever is present.
pub fn resolve_device(device_setting: QwenDeviceSetting, cuda_present: bool) -> (r: &'static str)
    ensures
        r@ == match device_setting {
            QwenDeviceSetting::Cuda => "cuda"@,
            QwenDeviceSetting::Cpu => "cpu"@,
            QwenDeviceSetting::Auto => if cuda_present {
                "cuda"@
            } else {
                "cpu"@
            },
        },
{
    match device_setting {
        QwenDeviceSetting::Cuda => "cuda",
        QwenDeviceSetting::Cpu => "cpu",
        QwenDeviceSetting::Auto => {
            if cuda_present {
                "cuda"
            } else {
                "cpu"
            }
        },
    }
}

/// The codes that have an English name of their own for the worker.
pub open spec fn named_code(code: Seq<char>) -> bool {
    ||| code == "zh"@
    ||| code == "zh-Hans"@
    ||| code == "zh-Hant"@
    ||| code == "ja"@
    ||| code == "ko"@
    ||| code == "de"@
    ||| code == "fr"@
    ||| code == "es"@
    ||| code == "it"@
    ||| code == "pt"@
    ||| code == "nl"@
    ||| code == "pl"@
    ||| code == "sv"@
    ||| code == "da"@
    ||| code == "no"@
    ||| code == "nb"@
    ||| code == "fi"@
    ||| code == "el"@
    ||| code == "cs"@
    ||| code == "ro"@
    ||| code == "hu"@
    ||| code == "ar"@
    ||| code == "ru"@
    ||| code == "tr"@
    ||| code == "hi"@
    ||| code == "vi"@
    ||| code == "id"@
    ||| code == "th"@
    ||| code == "ms"@
    ||| code == "uk"@
    ||| code == "he"@
}

/// The first entry of a table that has the code gives its name.
proof fn lemma_entry_names(table: Seq<(Seq<char>, Seq<char>)>, code: Seq<char>, k: int)
    requires
        0 <= k < table.len(),
        table[k].0 == code,
        forall|i: int| 0 <= i < k ==> (#[trigger] table[i]).0 != code,
    ensures
        name_in(table, code) == table[k].1,
    decreases table.len(),
{
    if k > 0 {
        let rest = table.drop_first();
        assert(table[0].0 != code);
        assert forall|i: int| 0 <= i < k - 1 implies (#[trigger] rest[i]).0 != code by {
            assert(rest[i] == table[i + 1]);
        }
        assert(rest[k - 1] == table[k]);
        lemma_entry_names(rest, code, k - 1);
    }
}

/// What the worker is told for a language code: the English name of each code
/// that has one, and every other code as it is, `auto` among them.
pub proof fn law_language_names(code: Seq<char>)
    ensures
        (code == "zh"@ || code == "zh-Hans"@ || code == "zh-Hant"@) ==> worker_language(code) == "Chinese"@,
        code == "ja"@ ==> worker_language(code) == "Japanese"@,
        code == "ko"@ ==> worker_language(code) == "Korean"@,
        code == "de"@ ==> worker_language(code) == "German"@,
        code == "fr"@ ==> worker_language(code) == "French"@,
        code == "es"@ ==> worker_language(code) == "Spanish"@,
        code == "it"@ ==> worker_language(code) == "Italian"@,
        code == "pt"@ ==> worker_language(code) == "Portuguese"@,
        code == "nl"@ ==> worker_language(code) == "Dutch"@,
        code == "pl"@ ==> worker_language(code) == "Polish"@,
        code == "sv"@ ==> worker_language(code) == "Swedish"@,
        code == "da"@ ==> worker_language(code) == "Danish"@,
        (code == "no"@ || code == "nb"@) ==> worker_language(code) == "Norwegian"@,
        code == "fi"@ ==> worker_language(code) == "Finnish"@,
        code == "el"@ ==> worker_language(code) == "Greek"@,
        code == "cs"@ ==> worker_language(code) == "Czech"@,
        code == "ro"@ ==> worker_language(code) == "Romanian"@,
        code == "hu"@ ==> worker_language(code) == "Hungarian"@,
        code == "ar"@ ==> worker_language(code) == "Arabic"@,
        code == "ru"@ ==> worker_language(code) == "Russian"@,
        code == "tr"@ ==> worker_language(code) == "Turkish"@,
        code == "hi"@ ==> worker_language(code) == "Hindi"@,
        code == "vi"@ ==> worker_language(code) == "Vietnamese"@,
        code == "id"@ ==> worker_language(code) == "Indonesian"@,
        code == "th"@ ==> worker_language(code) == "Thai"@,
        code == "ms"@ ==> worker_language(code) == "Malay"@,
        code == "uk"@ ==> worker_language(code) == "Ukrainian"@,
        code == "he"@ ==> worker_language(code) == "Hebrew"@,
        !named_code(code) ==> worker_language(code) == code,
{
    let table = language_names();
    lemma_codes_differ();
    if code == "auto"@ {
        reveal_strlit("auto");
    } else if exists|k: int| 0 <= k < table.len() && (#[trigger] table[k]).0 == code {
        let k = choose|k: int| 0 <= k < table.len() && (#[trigger] table[k]).0 == code;
        lemma_entry_names(table, code, k);
    } else {
        law_unknown_code_passes_through(table, code);
    }
    assert(table[0].0 == "zh"@);
    assert(table[1].0 == "zh-Hans"@);
    assert(table[2].0 == "zh-Hant"@);
    assert(table[3].0 == "ja"@);
    assert(table[4].0 == "ko"@);
    assert(table[5].0 == "de"@);
    assert(table[6].0 == "fr"@);
    assert(table[7].0 == "es"@);
    assert(table[8].0 == "it"@);
    assert(table[9].0 == "pt"@);
    assert(table[10].0 == "nl"@);
    assert(table[11].0 == "pl"@);
    assert(table[12].0 == "sv"@);
    assert(table[13].0 == "da"@);
    assert(table[14].0 == "no"@);
    assert(table[15].0 == "nb"@);
    assert(table[16].0 == "fi"@);
    assert(table[17].0 == "el"@);
    assert(table[18].0 == "cs"@);
    assert(table[19].0 == "ro"@);
    assert(table[20].0 == "hu"@);
    assert(table[21].0 == "ar"@);
    assert(table[22].0 == "ru"@);
    assert(table[23].0 == "tr"@);
    assert(table[24].0 == "hi"@);
    assert(table[25].0 == "vi"@);
    assert(table[26].0 == "id"@);
    assert(table[27].0 == "th"@);
    assert(table[28].0 == "ms"@);
    assert(table[29].0 == "uk"@);
    assert(table[30].0 == "he"@);
}

/// A number that tells the codes of the table apart.
spec fn code_number(code: Seq<char>) -> int {
    (code[0] as int) * 100000 + (code[1] as int) * 100 + code.len() * 10 + (if code.len() == 7 && code[6]
        == 't' {
        1int
    } else {
        0
    })
}

/// No code stands twice in the table, and `auto` is not in it.
proof fn lemma_codes_differ()
    ensures
        forall|i: int, j: int|
            0 <= i < j < language_names().len() ==> (#[trigger] language_names()[i]).0 != (
            #[trigger] language_names()[j]).0,
        forall|i: int| 0 <= i < language_names().len() ==> (#[trigger] language_names()[i]).0
            != "auto"@,
        language_names().len() == 31,
{
    reveal_strlit("auto");
    reveal_strlit("zh");
    reveal_strlit("zh-Hans");
    reveal_strlit("zh-Hant");
    reveal_strlit("ja");
    reveal_strlit("ko");
    reveal_strlit("de");
    reveal_strlit("fr");
    reveal_strlit("es");
    reveal_strlit("it");
    reveal_strlit("pt");
    reveal_strlit("nl");
    reveal_strlit("pl");
    reveal_strlit("sv");
    reveal_strlit("da");
    reveal_strlit("no");
    reveal_strlit("nb");
    reveal_strlit("fi");
    reveal_strlit("el");
    reveal_strlit("cs");
    reveal_strlit("ro");
    reveal_strlit("hu");
    reveal_strlit("ar");
    reveal_strlit("ru");
    reveal_strlit("tr");
    reveal_strlit("hi");
    reveal_strlit("vi");
    reveal_strlit("id");
    reveal_strlit("th");
    reveal_strlit("ms");
    reveal_strlit("uk");
    reveal_strlit("he");
    let table = language_names();
    assert forall|i: int, j: int| 0 <= i < j < table.len() implies (#[trigger] table[i]).0 != (
    #[trigger] table[j]).0 by {
        assert(code_number(table[i].0) != code_number(table[j].0));
    }
    assert forall|i: int| 0 <= i < table.len() implies (#[trigger] table[i]).0 != "auto"@ by {
        assert(code_number(table[i].0) != code_number("auto"@));
    }
}

} // verus!
