//! The push-to-talk chord in the app's own settings.
//!
//! The app keeps its settings in `Wispr Flow/config.json` under the user's configuration
//! directory. In there, `prefs.user.shortcuts` maps chords to actions:
//!
//! ```text
//! { "<vk+vk+...>": "<action>", ... }
//! ```
//!
//! A chord is written as Windows virtual-key codes joined by `+`. A layered chord starts with the
//! sentinel `-1` ("while push-to-talk is held"), which is not a key.

use vstd::prelude::*;

use crate::json;
use crate::json::{parse_json, Json, JsonModel};
use crate::number;
use crate::number::parse_integer;
use crate::text;
use crate::text::{chars_of, same_text, trimmed};

verus! {

/// The action of the push-to-talk entry in `prefs.user.shortcuts`.
pub const PTT_ACTION: &'static str = "ptt";

/// The directory of the app's settings, in the configuration directory.
pub const APP_DIR: &'static str = "Wispr Flow";

/// The name of the settings file.
pub const CONFIG_FILE: &'static str = "config.json";

/// The path of `part` in the directory `base`: a separator goes between the two unless `base` is
/// empty or ends with one.
pub open spec fn path_join(base: Seq<u8>, part: Seq<u8>) -> Seq<u8> {
    if base.len() == 0 || base.last() == '/' as u8 {
        base + part
    } else {
        base.push('/' as u8) + part
    }
}

/// The path of `part` in the directory `base`.
fn join_path(base: Vec<u8>, part: &str) -> (r: Vec<u8>)
    ensures
        r@ == path_join(base@, vstd::utf8::encode_utf8(part@)),
{
    let mut path: Vec<u8> = base;
    if path.len() > 0 && path[path.len() - 1] != 47u8 {
        path.push(47u8);
    }
    let ghost start = path@;
    let bytes: &[u8] = part.as_bytes();
    let mut i: usize = 0;
    while i < bytes.len()
        invariant
            i <= bytes.len(),
            path@ == start + bytes@.take(i as int),
        decreases bytes.len() - i,
    {
        path.push(bytes[i]);
        assert(bytes@.take(i + 1) =~= bytes@.take(i as int).push(bytes@[i as int]));
        assert(path@ =~= start + bytes@.take(i + 1));
        i += 1;
    }
    assert(bytes@.take(i as int) =~= bytes@);
    path
}

/// The settings file in the configuration directory `base`.
pub open spec fn settings_file(base: Seq<u8>) -> Seq<u8> {
    path_join(path_join(base, vstd::utf8::encode_utf8(APP_DIR@)), vstd::utf8::encode_utf8(CONFIG_FILE@))
}

/// A directory with a separator behind it, unless it is empty or ends with one already.
pub open spec fn directory_prefix(base: Seq<u8>) -> Seq<u8> {
    if base.len() > 0 && base[base.len() - 1] != 47u8 {
        base + seq![47u8]
    } else {
        base
    }
}

/// The settings file within the configuration directory.
pub open spec fn file_below() -> Seq<u8> {
    vstd::utf8::encode_utf8("Wispr Flow"@) + seq![47u8] + vstd::utf8::encode_utf8("config.json"@)
}

proof fn lemma_ascii_end(text: Seq<char>)
    requires
        text.len() > 0,
        vstd::utf8::is_ascii_chars(text),
        text.last() != '/',
    ensures
        vstd::utf8::encode_utf8(text).len() > 0,
        vstd::utf8::encode_utf8(text).last() != 47u8,
{
    vstd::utf8::is_ascii_chars_encode_utf8(text);
}

/// The settings file is `Wispr Flow/config.json` below the configuration directory, with one
/// separator in between.
pub proof fn law_settings_file_is_below(base: Seq<u8>)
    ensures
        settings_file(base) == directory_prefix(base) + file_below(),
        base.len() > 0 && base[base.len() - 1] != 47u8 ==> settings_file(base) == base + seq![47u8]
            + vstd::utf8::encode_utf8("Wispr Flow"@) + seq![47u8] + vstd::utf8::encode_utf8(
            "config.json"@,
        ),
        base.len() == 0 || base[base.len() - 1] == 47u8 ==> settings_file(base) == base
            + vstd::utf8::encode_utf8("Wispr Flow"@) + seq![47u8] + vstd::utf8::encode_utf8(
            "config.json"@,
        ),
{
    reveal_strlit("Wispr Flow");
    let app = vstd::utf8::encode_utf8("Wispr Flow"@);
    let file = vstd::utf8::encode_utf8("config.json"@);
    lemma_ascii_end("Wispr Flow"@);
    assert(path_join(base, app) =~= directory_prefix(base) + app);
    assert(path_join(base, app).last() == app.last());
    assert(settings_file(base) =~= directory_prefix(base) + file_below());
    assert(directory_prefix(base) + file_below() =~= directory_prefix(base) + app + seq![47u8]
        + file);
}

/// Without a configuration directory of its own, the settings file is below `.config` in the home
/// directory.
pub proof fn law_home_settings_file_is_below(home: Seq<u8>)
    ensures
        settings_file(path_join(home, vstd::utf8::encode_utf8(".config"@))) == directory_prefix(
            home,
        ) + vstd::utf8::encode_utf8(".config"@) + seq![47u8] + file_below(),
        home.len() > 0 && home[home.len() - 1] != 47u8 ==> settings_file(
            path_join(home, vstd::utf8::encode_utf8(".config"@)),
        ) == home + seq![47u8] + vstd::utf8::encode_utf8(".config"@) + seq![47u8]
            + vstd::utf8::encode_utf8("Wispr Flow"@) + seq![47u8] + vstd::utf8::encode_utf8(
            "config.json"@,
        ),
        home.len() == 0 || home[home.len() - 1] == 47u8 ==> settings_file(
            path_join(home, vstd::utf8::encode_utf8(".config"@)),
        ) == home + vstd::utf8::encode_utf8(".config"@) + seq![47u8] + vstd::utf8::encode_utf8(
            "Wispr Flow"@,
        ) + seq![47u8] + vstd::utf8::encode_utf8("config.json"@),
{
    reveal_strlit(".config");
    let part = vstd::utf8::encode_utf8(".config"@);
    let base = path_join(home, part);
    lemma_ascii_end(".config"@);
    assert(base =~= directory_prefix(home) + part);
    assert(base.last() == part.last());
    law_settings_file_is_below(base);
    assert(settings_file(base) =~= directory_prefix(home) + part + seq![47u8] + file_below());
}

/// The path of the settings file, from the values of `XDG_CONFIG_HOME` and `HOME`, as the bytes
/// of the path. `XDG_CONFIG_HOME` wins unless it is unset or empty; otherwise the file is below
/// `.config` in the home directory. `None` where `HOME` is needed and unset.
pub fn config_path(xdg_config_home: Option<Vec<u8>>, home: Option<Vec<u8>>) -> (r: Option<Vec<u8>>)
    ensures
        match (xdg_config_home, home) {
            (Some(xdg), _) if xdg@.len() > 0 => r matches Some(path) && path@ == settings_file(xdg@),
            (_, Some(dir)) => r matches Some(path) && path@ == settings_file(
                path_join(dir@, vstd::utf8::encode_utf8(".config"@)),
            ),
            (_, None) => r is None,
        },
        xdg_config_home is Some && xdg_config_home->0@.len() > 0 ==> r is Some && r->0@
            == directory_prefix(xdg_config_home->0@) + file_below(),
        (xdg_config_home is None || xdg_config_home->0@.len() == 0) && home is Some ==> r is Some
            && r->0@ == directory_prefix(home->0@) + vstd::utf8::encode_utf8(".config"@)
            + seq![47u8] + file_below(),
{
    proof {
        law_settings_file_is_below(xdg_config_home->0@);
        law_home_settings_file_is_below(home->0@);
    }
    let base: Vec<u8> = match xdg_config_home {
        Some(xdg) if xdg.len() > 0 => xdg,
        _ => match home {
            Some(dir) => join_path(dir, ".config"),
            None => {
                return None;
            },
        },
    };
    Some(join_path(join_path(base, APP_DIR), CONFIG_FILE))
}

/// The key codes that an optional chord holds.
pub open spec fn chord_view(chord: Option<Vec<u32>>) -> Option<Seq<u32>> {
    match chord {
        Some(codes) => Some(codes@),
        None => None,
    }
}

/// The key code that one token of a chord stands for, where the token is a positive integer that
/// fits a key code. Any other token stands for no key.
pub open spec fn token_code(token: Seq<char>) -> Option<u32> {
    match number::integer_value(text::trim(token)) {
        Some(n) if 0 < n <= u32::MAX => Some(n as u32),
        _ => None,
    }
}

/// The key codes of the tokens that stand for a key, in order.
pub open spec fn token_codes(tokens: Seq<Seq<char>>) -> Seq<u32>
    decreases tokens.len(),
{
    if tokens.len() == 0 {
        Seq::<u32>::empty()
    } else {
        let before = token_codes(tokens.drop_last());
        match token_code(tokens.last()) {
            Some(code) => before.push(code),
            None => before,
        }
    }
}

/// The key codes of a chord that is written as tokens joined by `+`.
pub open spec fn chord_codes(key: Seq<char>) -> Seq<u32> {
    token_codes(text::split(key, '+'))
}

/// The key code that one token of a chord stands for.
fn parse_token(token: &Vec<char>) -> (r: Option<u32>)
    ensures
        r == token_code(token@),
{
    match parse_integer(&trimmed(token)) {
        Some(n) => {
            if n > 0 && n <= 0xffff_ffff {
                Some(n as u32)
            } else {
                None
            }
        },
        None => None,
    }
}

/// Reads a chord such as `"162+91"` or `"-1+162+86"`. Tokens that are not positive key codes
/// are dropped, the layer sentinel `-1` among them. `None` where no key is left.
pub fn parse_chord_key(key: &str) -> (r: Option<Vec<u32>>)
    ensures
        chord_view(r) == if chord_codes(key@).len() > 0 {
            Some(chord_codes(key@))
        } else {
            None
        },
        match r {
            Some(codes) => codes@ == chord_codes(key@),
            None => chord_codes(key@).len() == 0,
        },
        r matches Some(codes) ==> codes@.len() > 0 && forall|i: int|
            0 <= i < codes@.len() ==> #[trigger] codes@[i] > 0,
{
    proof {
        law_codes_are_positive(key@);
    }
    let chars: Vec<char> = chars_of(key);
    let mut codes: Vec<u32> = Vec::new();
    let mut token: Vec<char> = Vec::new();
    let mut i: usize = 0;
    let ghost mut done: Seq<Seq<char>> = Seq::empty();
    assert(chars@.take(0) =~= Seq::<char>::empty());
    assert(done.push(token@) =~= seq![Seq::<char>::empty()]);
    while i < chars.len()
        invariant
            i <= chars.len(),
            text::split(chars@.take(i as int), '+') == done.push(token@),
            codes@ == token_codes(done),
        decreases chars.len() - i,
    {
        let ghost read = done.push(token@);
        assert(chars@.take(i + 1).drop_last() =~= chars@.take(i as int));
        assert(read.drop_last() =~= done);
        if chars[i] == '+' {
            if let Some(code) = parse_token(&token) {
                codes.push(code);
            }
            token = Vec::new();
            proof {
                done = read;
            }
        } else {
            token.push(chars[i]);
        }
        i += 1;
    }
    assert(chars@.take(i as int) =~= key@);
    assert(done.push(token@).drop_last() =~= done);
    if let Some(code) = parse_token(&token) {
        codes.push(code);
    }
    if codes.len() > 0 {
        Some(codes)
    } else {
        None
    }
}

/// The chord of the first member that maps a chord with keys to push-to-talk.
pub open spec fn first_ptt_chord(shortcuts: Seq<(Seq<char>, JsonModel)>) -> Option<Seq<u32>>
    decreases shortcuts.len(),
{
    if shortcuts.len() == 0 {
        None
    } else if binds_ptt(shortcuts[0]) {
        Some(chord_codes(shortcuts[0].0))
    } else {
        first_ptt_chord(shortcuts.skip(1))
    }
}

/// Whether a shortcut maps a chord that has keys to push-to-talk.
pub open spec fn binds_ptt(shortcut: (Seq<char>, JsonModel)) -> bool {
    shortcut.1 == JsonModel::Text(PTT_ACTION@) && chord_codes(shortcut.0).len() > 0
}

/// The members of `prefs.user.shortcuts`, where that is an object.
pub open spec fn shortcuts_of(root: JsonModel) -> Option<Seq<(Seq<char>, JsonModel)>> {
    match root.get("prefs"@) {
        Some(prefs) => match prefs.get("user"@) {
            Some(user) => match user.get("shortcuts"@) {
                Some(JsonModel::Object(shortcuts)) => Some(shortcuts),
                _ => None,
            },
            None => None,
        },
        None => None,
    }
}

/// The push-to-talk chord in a settings document.
pub open spec fn ptt_chord(root: JsonModel) -> Option<Seq<u32>> {
    match shortcuts_of(root) {
        Some(shortcuts) => first_ptt_chord(shortcuts),
        None => None,
    }
}

/// The push-to-talk chord in a settings document: that of the first entry of
/// `prefs.user.shortcuts` whose action is [`PTT_ACTION`] and whose chord has a key.
pub fn ptt_chord_from_json(root: &Json) -> (r: Option<Vec<u32>>)
    ensures
        chord_view(r) == ptt_chord(root@),
        match r {
            Some(codes) => ptt_chord(root@) == Some(codes@),
            None => ptt_chord(root@) is None,
        },
{
    let shortcuts: &Json = match root.get("prefs") {
        Some(prefs) => match prefs.get("user") {
            Some(user) => match user.get("shortcuts") {
                Some(shortcuts) => shortcuts,
                None => {
                    return None;
                },
            },
            None => {
                return None;
            },
        },
        None => {
            return None;
        },
    };
    match shortcuts {
        Json::Object(members) => {
            let ghost all = shortcuts@->Object_0;
            let mut i: usize = 0;
            assert(all.skip(0) =~= all);
            while i < members.len()
                invariant
                    i <= members.len(),
                    members@.len() == all.len(),
                    ptt_chord(root@) == first_ptt_chord(all),
                    forall|j: int|
                        0 <= j < members@.len() ==> all[j] == (
                            (#[trigger] members@[j]).0@,
                            members@[j].1@,
                        ),
                    first_ptt_chord(all) == first_ptt_chord(all.skip(i as int)),
                decreases members.len() - i,
            {
                assert(all.skip(i as int)[0] == (members@[i as int].0@, members@[i as int].1@));
                assert(all.skip(i as int).skip(1) =~= all.skip(i + 1));
                if let Some(action) = members[i].1.as_str() {
                    if same_text(action, PTT_ACTION) {
                        if let Some(codes) = parse_chord_key(members[i].0.as_str()) {
                            return Some(codes);
                        }
                    }
                }
                i += 1;
            }
            None
        },
        _ => None,
    }
}

/// The push-to-talk chord in the content of a settings file.
pub open spec fn ptt_chord_of_text(content: Seq<char>) -> Option<Seq<u32>> {
    match json::json_of_text(content) {
        Some(root) => ptt_chord(root),
        None => None,
    }
}

/// Reads the push-to-talk chord from the content of the settings file. `None` where there is no
/// content (the file is absent or unreadable), it is not JSON, or no entry binds push-to-talk.
pub fn read_ptt_chord(text: Option<&str>) -> (r: Option<Vec<u32>>)
    ensures
        chord_view(r) == match text {
            Some(content) => ptt_chord_of_text(content@),
            None => None,
        },
        text is None ==> r is None,
        text matches Some(content) ==> match json::json_of_text(content@) {
            Some(root) => match r {
                Some(codes) => ptt_chord(root) == Some(codes@),
                None => ptt_chord(root) is None,
            },
            None => r is None,
        },
{
    match text {
        Some(content) => match parse_json(content) {
            Some(root) => ptt_chord_from_json(&root),
            None => None,
        },
        None => None,
    }
}

/// How a chord is written: its key codes in base ten, joined by `+`.
pub open spec fn chord_text(codes: Seq<u32>) -> Seq<char> {
    text::join(Seq::new(codes.len(), |i: int| number::decimal(codes[i] as nat)), '+')
}

proof fn lemma_trim_digits(s: Seq<char>)
    requires
        number::all_digits(s),
    ensures
        text::trim(s) == s,
{
    if s.len() > 0 {
        assert(number::is_digit(s[0]));
        assert(number::is_digit(s[s.len() - 1]));
    }
}

proof fn lemma_token_code_of_decimal(code: u32)
    requires
        code > 0,
    ensures
        token_code(number::decimal(code as nat)) == Some(code),
        !number::decimal(code as nat).contains('+'),
{
    let s = number::decimal(code as nat);
    number::lemma_decimal(code as nat);
    number::lemma_integer_value_of_decimal(code as nat);
    lemma_trim_digits(s);
    assert forall|i: int| 0 <= i < s.len() implies s[i] != '+' by {
        assert(number::is_digit(s[i]));
    }
}

proof fn lemma_token_codes_of_decimals(codes: Seq<u32>)
    requires
        forall|i: int| 0 <= i < codes.len() ==> #[trigger] codes[i] > 0,
    ensures
        token_codes(Seq::new(codes.len(), |i: int| number::decimal(codes[i] as nat))) == codes,
    decreases codes.len(),
{
    let tokens = Seq::new(codes.len(), |i: int| number::decimal(codes[i] as nat));
    if codes.len() > 0 {
        let front = codes.drop_last();
        lemma_token_codes_of_decimals(front);
        assert(tokens.drop_last() =~= Seq::new(
            front.len(),
            |i: int| number::decimal(front[i] as nat),
        ));
        lemma_token_code_of_decimal(codes.last());
        assert(front.push(codes.last()) =~= codes);
    } else {
        assert(codes =~= Seq::<u32>::empty());
    }
}

/// A chord of positive key codes reads back as it was written.
pub proof fn law_chord_round_trip(codes: Seq<u32>)
    requires
        codes.len() > 0,
        forall|i: int| 0 <= i < codes.len() ==> #[trigger] codes[i] > 0,
    ensures
        chord_codes(chord_text(codes)) == codes,
{
    let tokens = Seq::new(codes.len(), |i: int| number::decimal(codes[i] as nat));
    assert forall|i: int| 0 <= i < tokens.len() implies !(#[trigger] tokens[i]).contains('+') by {
        assert(codes[i] > 0);
        lemma_token_code_of_decimal(codes[i]);
    }
    text::lemma_split_join(tokens, '+');
    lemma_token_codes_of_decimals(codes);
}

proof fn lemma_token_codes_concat(a: Seq<Seq<char>>, b: Seq<Seq<char>>)
    ensures
        token_codes(a + b) == token_codes(a) + token_codes(b),
    decreases b.len(),
{
    if b.len() == 0 {
        assert(a + b =~= a);
    } else {
        lemma_token_codes_concat(a, b.drop_last());
        assert((a + b).drop_last() =~= a + b.drop_last());
        assert((a + b).last() == b.last());
    }
    assert(token_codes(a + b) =~= token_codes(a) + token_codes(b));
}

/// The keys of two chords joined by `+` are those of the first, then those of the second.
pub proof fn law_joined_chords_join_their_keys(a: Seq<char>, b: Seq<char>)
    ensures
        chord_codes(a.push('+') + b) == chord_codes(a) + chord_codes(b),
{
    text::lemma_split_concat(a, b, '+');
    lemma_token_codes_concat(text::split(a, '+'), text::split(b, '+'));
}

/// A layered chord has the keys of the chord behind its sentinel.
pub proof fn law_layer_sentinel_is_dropped(key: Seq<char>)
    ensures
        chord_codes("-1+"@ + key) == chord_codes(key),
{
    reveal_strlit("-1+");
    let token = seq!['-', '1'];
    assert("-1+"@ =~= token.push('+'));
    assert(text::trim(token) == token);
    assert(number::integer_value(token) == Some(-1int)) by {
        assert(token.skip(1) =~= seq!['1']);
        assert(number::is_digit('1'));
        assert(seq!['1'].drop_last() =~= Seq::<char>::empty());
        assert(number::digits_value(seq!['1'].drop_last()) == 0);
        assert(number::digits_value(seq!['1']) == 1);
    }
    law_joined_chords_join_their_keys(token, key);
    text::lemma_split_single(token, '+');
    assert(seq![token].drop_last() =~= Seq::<Seq<char>>::empty());
    assert(token_codes(seq![token].drop_last()) =~= Seq::<u32>::empty());
    assert(chord_codes(token) + chord_codes(key) =~= chord_codes(key));
}

proof fn lemma_token_codes_positive(tokens: Seq<Seq<char>>)
    ensures
        forall|i: int| 0 <= i < token_codes(tokens).len() ==> #[trigger] token_codes(tokens)[i] > 0,
    decreases tokens.len(),
{
    if tokens.len() > 0 {
        let before = token_codes(tokens.drop_last());
        lemma_token_codes_positive(tokens.drop_last());
        assert forall|i: int| 0 <= i < token_codes(tokens).len() implies #[trigger] token_codes(
            tokens,
        )[i] > 0 by {
            if i < before.len() {
                assert(before[i] > 0);
            }
        }
    }
}

/// Every key code of a chord is positive.
pub proof fn law_codes_are_positive(key: Seq<char>)
    ensures
        forall|i: int| 0 <= i < chord_codes(key).len() ==> #[trigger] chord_codes(key)[i] > 0,
{
    lemma_token_codes_positive(text::split(key, '+'));
}

proof fn lemma_first_ptt_chord(shortcuts: Seq<(Seq<char>, JsonModel)>) -> (at: int)
    ensures
        first_ptt_chord(shortcuts) is None ==> forall|i: int|
            0 <= i < shortcuts.len() ==> !binds_ptt(#[trigger] shortcuts[i]),
        first_ptt_chord(shortcuts) is Some ==> {
            &&& 0 <= at < shortcuts.len()
            &&& binds_ptt(shortcuts[at])
            &&& first_ptt_chord(shortcuts) == Some(chord_codes(shortcuts[at].0))
            &&& forall|i: int| 0 <= i < at ==> !binds_ptt(#[trigger] shortcuts[i])
        },
    decreases shortcuts.len(),
{
    if shortcuts.len() == 0 {
        0
    } else if binds_ptt(shortcuts[0]) {
        0
    } else {
        let rest = shortcuts.skip(1);
        let at = lemma_first_ptt_chord(rest);
        assert forall|i: int| 0 < i < shortcuts.len() implies #[trigger] shortcuts[i] == rest[
            i - 1
        ] by {}
        at + 1
    }
}

/// In a document as [`parse_json`] reads it, the push-to-talk chord is that of the least name
/// among the entries that bind push-to-talk; there is none only where no entry does.
pub proof fn law_least_ptt_entry_wins(root: JsonModel, shortcuts: Seq<(Seq<char>, JsonModel)>)
    requires
        root.sorted(),
        shortcuts_of(root) == Some(shortcuts),
    ensures
        ptt_chord(root) is Some <==> exists|i: int|
            0 <= i < shortcuts.len() && binds_ptt(#[trigger] shortcuts[i]),
        ptt_chord(root) matches Some(chord) ==> exists|at: int|
            {
                &&& 0 <= at < shortcuts.len()
                &&& binds_ptt(#[trigger] shortcuts[at])
                &&& chord == chord_codes(shortcuts[at].0)
                &&& forall|i: int|
                    0 <= i < shortcuts.len() && i != at && binds_ptt(#[trigger] shortcuts[i])
                        ==> json::text_before(shortcuts[at].0, shortcuts[i].0)
            },
{
    let at = lemma_first_ptt_chord(shortcuts);
    let prefs = root.get("prefs"@)->0;
    let user = prefs.get("user"@)->0;
    json::lemma_member_sorted(root->Object_0, "prefs"@);
    json::lemma_member_sorted(prefs->Object_0, "user"@);
    json::lemma_member_sorted(user->Object_0, "shortcuts"@);
    assert(json::names_ascend(shortcuts));
    if ptt_chord(root) is Some {
        assert(binds_ptt(shortcuts[at]));
    }
}

/// A chord that the settings bind to push-to-talk, with no binding entry before it, reads back.
pub proof fn law_bound_chord_reads_back(
    root: JsonModel,
    shortcuts: Seq<(Seq<char>, JsonModel)>,
    at: int,
    codes: Seq<u32>,
)
    requires
        codes.len() > 0,
        forall|i: int| 0 <= i < codes.len() ==> #[trigger] codes[i] > 0,
        shortcuts_of(root) == Some(shortcuts),
        0 <= at < shortcuts.len(),
        shortcuts[at] == (chord_text(codes), JsonModel::Text(PTT_ACTION@)),
        forall|i: int| 0 <= i < at ==> !binds_ptt(#[trigger] shortcuts[i]),
    ensures
        ptt_chord(root) == Some(codes),
{
    law_chord_round_trip(codes);
    let found = lemma_first_ptt_chord(shortcuts);
    assert(binds_ptt(shortcuts[at]));
    if found < at {
        assert(!binds_ptt(shortcuts[found]));
    }
}

/// A push-to-talk chord is never empty, and its key codes are positive.
pub proof fn law_ptt_chord_has_keys(root: JsonModel)
    ensures
        ptt_chord(root) matches Some(chord) ==> chord.len() > 0 && forall|i: int|
            0 <= i < chord.len() ==> #[trigger] chord[i] > 0,
{
    if let Some(shortcuts) = shortcuts_of(root) {
        let at = lemma_first_ptt_chord(shortcuts);
        law_codes_are_positive(shortcuts[at].0);
    }
}

proof fn lemma_lone_token(token: Seq<char>)
    requires
        !token.contains('+'),
    ensures
        chord_codes(token) == match token_code(token) {
            Some(code) => seq![code],
            None => Seq::<u32>::empty(),
        },
{
    text::lemma_split_single(token, '+');
    assert(seq![token].drop_last() =~= Seq::<Seq<char>>::empty());
    assert(token_codes(seq![token].drop_last()) =~= Seq::<u32>::empty());
    assert(chord_codes(token) =~= match token_code(token) {
        Some(code) => seq![code],
        None => Seq::<u32>::empty(),
    });
}

/// Digits with white space around them are the key of their value, where that is positive and fits
/// a key code, and no key otherwise.
pub proof fn law_digits_are_their_key(before: Seq<char>, digits: Seq<char>, after: Seq<char>)
    requires
        forall|i: int| 0 <= i < before.len() ==> text::is_white_space(#[trigger] before[i]),
        forall|i: int| 0 <= i < after.len() ==> text::is_white_space(#[trigger] after[i]),
        digits.len() > 0,
        forall|i: int| 0 <= i < digits.len() ==> '0' <= #[trigger] digits[i] <= '9',
    ensures
        chord_codes(before + digits + after) == if 0 < number::digits_value(digits) <= u32::MAX {
            seq![number::digits_value(digits) as u32]
        } else {
            Seq::<u32>::empty()
        },
{
    let token = before + digits + after;
    assert('0' <= digits[0] <= '9' && '0' <= digits[digits.len() - 1] <= '9');
    text::law_trim_takes_the_ends(before, digits, after);
    number::law_digits_write_their_value(digits);
    assert forall|i: int| 0 <= i < token.len() implies token[i] != '+' by {
        if i < before.len() {
            assert(text::is_white_space(before[i]));
        } else if i < before.len() + digits.len() {
            assert('0' <= digits[i - before.len()] <= '9');
        } else {
            assert(text::is_white_space(after[i - before.len() - digits.len()]));
        }
    }
    lemma_lone_token(token);
}

/// A token that is anything else, such as one with a minus sign, a letter or nothing but white
/// space, is no key.
pub proof fn law_other_tokens_are_no_key(
    before: Seq<char>,
    body: Seq<char>,
    after: Seq<char>,
    at: int,
)
    requires
        forall|i: int| 0 <= i < before.len() ==> text::is_white_space(#[trigger] before[i]),
        forall|i: int| 0 <= i < after.len() ==> text::is_white_space(#[trigger] after[i]),
        body.len() > 0 ==> {
            &&& !text::is_white_space(body[0])
            &&& !text::is_white_space(body.last())
            &&& 0 <= at < body.len()
            &&& !('0' <= body[at] <= '9')
        },
        !body.contains('+'),
    ensures
        chord_codes(before + body + after) == Seq::<u32>::empty(),
{
    let token = before + body + after;
    text::law_trim_takes_the_ends(before, body, after);
    assert forall|i: int| 0 <= i < token.len() implies token[i] != '+' by {
        if i < before.len() {
            assert(text::is_white_space(before[i]));
        } else if i < before.len() + body.len() {
            assert(body.contains(body[i - before.len()]));
        } else {
            assert(text::is_white_space(after[i - before.len() - body.len()]));
        }
    }
    if body.len() > 0 {
        assert(body.contains(body[0]));
        if body[0] == '-' && body.len() > 1 {
            let digits = body.skip(1);
            assert(seq!['-'] + digits =~= body);
            if exists|k: int| 0 < k < body.len() && !('0' <= #[trigger] body[k] <= '9') {
                let k = choose|k: int| 0 < k < body.len() && !('0' <= #[trigger] body[k] <= '9');
                number::law_other_texts_write_no_integer(body, k);
            } else {
                assert forall|i: int| 0 <= i < digits.len() implies '0' <= #[trigger] digits[i]
                    <= '9' by {
                    assert('0' <= body[i + 1] <= '9');
                }
                number::law_digits_write_their_value(digits);
            }
        } else {
            number::law_other_texts_write_no_integer(body, at);
        }
    } else {
        number::law_other_texts_write_no_integer(body, 0);
    }
    lemma_lone_token(token);
}

/// The chord of a settings document is the one that the first entry of `prefs.user.shortcuts` with
/// the action `ptt` and a key spells, whatever else the document holds.
pub proof fn law_first_ptt_entry_is_read(
    root: JsonModel,
    prefs: JsonModel,
    user: JsonModel,
    shortcuts: Seq<(Seq<char>, JsonModel)>,
    at: int,
)
    requires
        root.get("prefs"@) == Some(prefs),
        prefs.get("user"@) == Some(user),
        user.get("shortcuts"@) == Some(JsonModel::Object(shortcuts)),
        0 <= at < shortcuts.len(),
        shortcuts[at].1 == JsonModel::Text("ptt"@),
        chord_codes(shortcuts[at].0).len() > 0,
        forall|i: int|
            0 <= i < at ==> (#[trigger] shortcuts[i]).1 != JsonModel::Text("ptt"@) || chord_codes(
                shortcuts[i].0,
            ).len() == 0,
    ensures
        ptt_chord(root) == Some(chord_codes(shortcuts[at].0)),
{
    let found = lemma_first_ptt_chord(shortcuts);
    assert(binds_ptt(shortcuts[at]));
    if found < at {
        assert(!binds_ptt(shortcuts[found]));
    }
}

/// The same in terms of the members: `prefs`, `user` and `shortcuts` count wherever they stand
/// among the members of their objects, and the other members do not.
pub proof fn law_other_members_do_not_matter(
    top: Seq<(Seq<char>, JsonModel)>,
    prefs_at: int,
    prefs: Seq<(Seq<char>, JsonModel)>,
    user_at: int,
    user: Seq<(Seq<char>, JsonModel)>,
    shortcuts_at: int,
    shortcuts: Seq<(Seq<char>, JsonModel)>,
    at: int,
)
    requires
        0 <= prefs_at < top.len(),
        top[prefs_at] == ("prefs"@, JsonModel::Object(prefs)),
        forall|i: int| 0 <= i < prefs_at ==> (#[trigger] top[i]).0 != "prefs"@,
        0 <= user_at < prefs.len(),
        prefs[user_at] == ("user"@, JsonModel::Object(user)),
        forall|i: int| 0 <= i < user_at ==> (#[trigger] prefs[i]).0 != "user"@,
        0 <= shortcuts_at < user.len(),
        user[shortcuts_at] == ("shortcuts"@, JsonModel::Object(shortcuts)),
        forall|i: int| 0 <= i < shortcuts_at ==> (#[trigger] user[i]).0 != "shortcuts"@,
        0 <= at < shortcuts.len(),
        shortcuts[at].1 == JsonModel::Text("ptt"@),
        chord_codes(shortcuts[at].0).len() > 0,
        forall|i: int|
            0 <= i < at ==> (#[trigger] shortcuts[i]).1 != JsonModel::Text("ptt"@) || chord_codes(
                shortcuts[i].0,
            ).len() == 0,
    ensures
        ptt_chord(JsonModel::Object(top)) == Some(chord_codes(shortcuts[at].0)),
{
    json::law_first_member_of_a_name_is_got(top, "prefs"@, prefs_at);
    json::law_first_member_of_a_name_is_got(prefs, "user"@, user_at);
    json::law_first_member_of_a_name_is_got(user, "shortcuts"@, shortcuts_at);
    law_first_ptt_entry_is_read(
        JsonModel::Object(top),
        JsonModel::Object(prefs),
        JsonModel::Object(user),
        shortcuts,
        at,
    );
}

/// A settings document has no push-to-talk chord where `prefs.user.shortcuts` is missing or no
/// object, or where none of its entries has the action `ptt` and a key.
pub proof fn law_no_ptt_entry_is_no_chord(root: JsonModel)
    requires
        ({
            ||| root.get("prefs"@) is None
            ||| root.get("prefs"@)->0.get("user"@) is None
            ||| root.get("prefs"@)->0.get("user"@)->0.get("shortcuts"@) is None
            ||| !(root.get("prefs"@)->0.get("user"@)->0.get("shortcuts"@)->0 is Object)
            ||| forall|i: int|
                0 <= i < root.get("prefs"@)->0.get("user"@)->0.get("shortcuts"@)->0->Object_0.len()
                    ==> (#[trigger] root.get("prefs"@)->0.get("user"@)->0.get(
                    "shortcuts"@,
                )->0->Object_0[i]).1 != JsonModel::Text("ptt"@) || chord_codes(
                    root.get("prefs"@)->0.get("user"@)->0.get("shortcuts"@)->0->Object_0[i].0,
                ).len() == 0
        }),
    ensures
        ptt_chord(root) is None,
{
    if let Some(shortcuts) = shortcuts_of(root) {
        let found = lemma_first_ptt_chord(shortcuts);
        if first_ptt_chord(shortcuts) is Some {
            assert(binds_ptt(shortcuts[found]));
        }
    }
}

/// The chord of a text is that of the document it is, and there is none in a text that is no
/// document.
pub proof fn law_chord_of_text_is_that_of_its_document(content: Seq<char>)
    ensures
        json::json_of_text(content) matches Some(root) ==> ptt_chord_of_text(content) == ptt_chord(
            root,
        ),
        json::json_of_text(content) is None ==> ptt_chord_of_text(content) is None,
{
}

/// A chord is written as the decimal texts of its keys with a `+` between each two.
pub proof fn law_chord_text_lists_its_keys(codes: Seq<u32>, code: u32)
    ensures
        chord_text(seq![code]) == number::decimal(code as nat),
        codes.len() > 0 ==> chord_text(codes.push(code)) == chord_text(codes) + seq!['+']
            + number::decimal(code as nat),
{
    let texts = Seq::new(codes.len(), |i: int| number::decimal(codes[i] as nat));
    let text = number::decimal(code as nat);
    text::law_join_separates_neighbours(texts, text, '+');
    assert(Seq::new(1, |i: int| number::decimal(seq![code][i] as nat)) =~= seq![text]);
    let longer = codes.push(code);
    assert(Seq::new(longer.len(), |i: int| number::decimal(longer[i] as nat)) =~= texts.push(text));
}

} // verus!
