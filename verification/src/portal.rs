//! What portal capture needs to know: names on the bus, which signals are its own, and which chord
//! to bind.

use vstd::prelude::*;

use crate::config;
use crate::config::read_ptt_chord;
use crate::number;
use crate::number::push_decimal;
use crate::text::{chars_of, same_text};

verus! {

/// The bus name of the portal.
pub const PORTAL_DEST: &'static str = "org.freedesktop.portal.Desktop";

/// The object of the portal.
pub const PORTAL_PATH: &'static str = "/org/freedesktop/portal/desktop";

/// The interface that binds shortcuts.
pub const GS_IFACE: &'static str = "org.freedesktop.portal.GlobalShortcuts";

/// The interface of a request object.
pub const REQUEST_IFACE: &'static str = "org.freedesktop.portal.Request";

/// The interface of a session object.
pub const SESSION_IFACE: &'static str = "org.freedesktop.portal.Session";

/// The identifier of the push-to-talk shortcut within the session. The compositor names it in
/// `Activated` and `Deactivated`.
pub const SHORTCUT_ID: &'static str = "ptt";

/// `s` without the colons at its start.
pub open spec fn without_leading_colons(s: Seq<char>) -> Seq<char>
    decreases s.len(),
{
    if s.len() > 0 && s[0] == ':' {
        without_leading_colons(s.skip(1))
    } else {
        s
    }
}

/// `_` for a dot, and any other character for itself.
pub open spec fn path_char(c: char) -> char {
    if c == '.' {
        '_'
    } else {
        c
    }
}

/// How a bus name appears in the path of a request object.
pub open spec fn sender_element(unique: Seq<char>) -> Seq<char> {
    without_leading_colons(unique).map_values(|c: char| path_char(c))
}

/// The path of the request object for a call by `unique` with this token.
pub open spec fn request_object(unique: Seq<char>, token: Seq<char>) -> Seq<char> {
    "/org/freedesktop/portal/desktop/request/"@ + sender_element(unique) + "/"@ + token
}

/// The path of the request object that the portal uses for a call with this handle token:
/// `/org/freedesktop/portal/desktop/request/<SENDER>/<token>`, where SENDER is the caller's unique
/// name without its leading colon and with `_` for each dot. It is known before the call, so the
/// caller can subscribe first.
pub fn request_path(unique: &str, token: &str) -> (r: String)
    ensures
        r@ == request_object(unique@, token@),
{
    let chars: Vec<char> = chars_of(unique);
    let mut i: usize = 0;
    assert(chars@.skip(0) =~= chars@);
    while i < chars.len() && chars[i] == ':'
        invariant
            i <= chars.len(),
            without_leading_colons(chars@) == without_leading_colons(chars@.skip(i as int)),
        decreases chars.len() - i,
    {
        assert(chars@.skip(i as int).skip(1) =~= chars@.skip(i + 1));
        i += 1;
    }
    let ghost start = i as int;
    let ghost name = chars@.skip(start);
    assert(without_leading_colons(chars@) == name);
    let mut out: String = "/org/freedesktop/portal/desktop/request/".to_owned();
    let ghost prefix = out@;
    assert(prefix =~= prefix + sender_element(unique@).take(0));
    while i < chars.len()
        invariant
            0 <= start <= i <= chars.len(),
            name == chars@.skip(start),
            sender_element(unique@) == name.map_values(|c: char| path_char(c)),
            out@ == prefix + sender_element(unique@).take(i - start),
        decreases chars.len() - i,
    {
        let c: char = if chars[i] == '.' {
            '_'
        } else {
            chars[i]
        };
        out.push(c);
        proof {
            let sender = sender_element(unique@);
            assert(sender[i - start] == c);
            assert(sender.take(i + 1 - start) =~= sender.take(i - start).push(c));
            assert(out@ =~= prefix + sender.take(i + 1 - start));
        }
        i += 1;
    }
    assert(sender_element(unique@).take(i - start) =~= sender_element(unique@));
    out.append("/");
    out.append(token);
    out
}

/// What the portal says of a shortcut that was activated or deactivated.
pub struct Signal {
    /// The session that the shortcut belongs to.
    pub session: String,
    /// The shortcut within that session.
    pub shortcut_id: String,
}

/// Whether a signal, where it could be decoded, is for this session and its shortcut.
pub fn signal_matches(signal: Option<&Signal>, session: &str) -> (r: bool)
    ensures
        r == match signal {
            Some(sent) => sent.session@ == session@ && sent.shortcut_id@ == SHORTCUT_ID@,
            None => false,
        },
{
    match signal {
        Some(sent) => same_text(sent.session.as_str(), session) && same_text(
            sent.shortcut_id.as_str(),
            SHORTCUT_ID,
        ),
        None => false,
    }
}

/// The numbers of a list, with a comma and a space between each two.
pub open spec fn list_items(codes: Seq<u32>) -> Seq<char>
    decreases codes.len(),
{
    if codes.len() == 0 {
        Seq::<char>::empty()
    } else if codes.len() == 1 {
        number::decimal(codes[0] as nat)
    } else {
        list_items(codes.drop_last()) + ", "@ + number::decimal(codes.last() as nat)
    }
}

/// Appends the numbers of a list, with a comma and a space between each two.
fn push_list_items(out: &mut String, codes: &Vec<u32>)
    ensures
        final(out)@ == old(out)@ + list_items(codes@),
{
    let ghost start = out@;
    let mut i: usize = 0;
    assert(start + list_items(codes@.take(0)) =~= start);
    while i < codes.len()
        invariant
            i <= codes.len(),
            out@ == start + list_items(codes@.take(i as int)),
        decreases codes.len() - i,
    {
        if i > 0 {
            out.append(", ");
        }
        push_decimal(out, codes[i] as u64);
        proof {
            assert(codes@.take(i + 1).drop_last() =~= codes@.take(i as int));
            assert(codes@.take(i + 1).last() == codes@[i as int]);
            assert(out@ =~= start + list_items(codes@.take(i + 1)));
        }
        i += 1;
    }
    assert(codes@.take(i as int) =~= codes@);
}

/// Why a chord cannot be bound: it gives no trigger.
pub open spec fn unbindable(chord: Seq<u32>) -> Seq<char> {
    "push-to-talk chord ["@ + list_items(chord)
        + "] can't be a portal trigger (modifier-only chords are rejected by KDE). Set a chord that includes a regular key, or use WISPR_CAPTURE=evdev."@
}

/// Why there is no chord to bind.
pub open spec fn no_shortcut() -> Seq<char> {
    "no push-to-talk shortcut found in the app config; set one in Wispr Flow first"@
}

/// The chord to bind, from the one in the settings and the portal trigger that it gives. Without a
/// chord, or where the chord gives no trigger, as one of modifiers alone, a message says so.
pub open spec fn resolved(chord: Option<Seq<u32>>, has_trigger: bool) -> Result<
    Seq<u32>,
    Seq<char>,
> {
    match chord {
        Some(codes) => if has_trigger {
            Ok(codes)
        } else {
            Err(unbindable(codes))
        },
        None => Err(no_shortcut()),
    }
}

/// What a chord or an error message says.
pub open spec fn result_view(r: Result<Vec<u32>, String>) -> Result<Seq<u32>, Seq<char>> {
    match r {
        Ok(codes) => Ok(codes@),
        Err(message) => Err(message@),
    }
}

/// The chord to bind, from the one in the settings and the portal trigger that it gives.
pub fn bindable_chord(chord: Option<Vec<u32>>, trigger: Option<&str>) -> (r: Result<
    Vec<u32>,
    String,
>)
    ensures
        result_view(r) == resolved(config::chord_view(chord), trigger is Some),
        chord is Some && trigger is Some ==> r == Ok::<Vec<u32>, String>(chord->0),
        chord is Some && trigger is None ==> r is Err && r->Err_0@ == "push-to-talk chord ["@
            + list_items(chord->0@)
            + "] can't be a portal trigger (modifier-only chords are rejected by KDE). Set a chord that includes a regular key, or use WISPR_CAPTURE=evdev."@,
        chord is None ==> r is Err && r->Err_0@
            == "no push-to-talk shortcut found in the app config; set one in Wispr Flow first"@,
{
    match chord {
        Some(codes) => {
            if trigger.is_some() {
                Ok(codes)
            } else {
                let mut message: String = "push-to-talk chord [".to_owned();
                push_list_items(&mut message, &codes);
                Err(
                    message.concat(
                        "] can't be a portal trigger (modifier-only chords are rejected by KDE). Set a chord that includes a regular key, or use WISPR_CAPTURE=evdev.",
                    ),
                )
            }
        },
        None => Err(
            "no push-to-talk shortcut found in the app config; set one in Wispr Flow first".to_owned(),
        ),
    }
}

/// Whether `r` is the chord to bind out of the settings, where `to_trigger` gives the portal
/// trigger of a chord.
pub open spec fn resolves_to<F: Fn(&Vec<u32>) -> Option<String>>(
    content: Option<Seq<char>>,
    to_trigger: F,
    r: Result<Seq<u32>, Seq<char>>,
) -> bool {
    let chord = match content {
        Some(text) => config::ptt_chord_of_text(text),
        None => None,
    };
    match chord {
        Some(codes) => exists|arg: Vec<u32>, trigger: Option<String>|
            arg@ == codes && #[trigger] call_ensures(to_trigger, (&arg,), trigger) && r == resolved(
                chord,
                trigger is Some,
            ),
        None => r == resolved(None, false),
    }
}

/// What an optional text says.
pub open spec fn text_view(text: Option<&str>) -> Option<Seq<char>> {
    match text {
        Some(content) => Some(content@),
        None => None,
    }
}

/// The chord to bind, from the content of the settings file; no content where the file could not
/// be read. `to_trigger` gives the portal trigger of a chord, or `None` where it has none.
pub fn resolve_chord<F: Fn(&Vec<u32>) -> Option<String>>(
    text: Option<&str>,
    to_trigger: F,
) -> (r: Result<Vec<u32>, String>)
    requires
        forall|chord: &Vec<u32>| call_requires(to_trigger, (chord,)),
    ensures
        resolves_to(text_view(text), to_trigger, result_view(r)),
{
    match read_ptt_chord(text) {
        Some(codes) => {
            let trigger: Option<String> = to_trigger(&codes);
            assert(call_ensures(to_trigger, (&codes,), trigger));
            match &trigger {
                Some(found) => bindable_chord(Some(codes), Some(found.as_str())),
                None => bindable_chord(Some(codes), None),
            }
        },
        None => bindable_chord(None, None),
    }
}

/// The chord to start portal capture with, from the path of the settings file and its content. An
/// error says why capture cannot start.
pub fn start<F: Fn(&Vec<u32>) -> Option<String>>(
    config_path: Option<&Vec<u8>>,
    text: Option<&str>,
    to_trigger: F,
) -> (r: Result<Vec<u32>, String>)
    requires
        forall|chord: &Vec<u32>| call_requires(to_trigger, (chord,)),
    ensures
        match config_path {
            Some(_) => resolves_to(text_view(text), to_trigger, result_view(r)),
            None => result_view(r) == Err::<Seq<u32>, Seq<char>>(
                "no config dir (HOME/XDG_CONFIG_HOME unset)"@,
            ),
        },
        config_path is None ==> r is Err && r->Err_0@
            == "no config dir (HOME/XDG_CONFIG_HOME unset)"@,
{
    match config_path {
        Some(_) => resolve_chord(text, to_trigger),
        None => Err("no config dir (HOME/XDG_CONFIG_HOME unset)".to_owned()),
    }
}

/// What a changed settings file means for the bound chord.
pub enum Rebind {
    /// The chord in the settings cannot be bound, for this reason: keep the binding.
    Skip(String),
    /// The chord is the bound one: keep the binding.
    Keep,
    /// Close the session and bind this chord.
    Bind(Vec<u32>),
}

/// Decides what a changed settings file means for the bound chord.
pub fn rebind_on_change(current: &Vec<u32>, resolved: Result<Vec<u32>, String>) -> (r: Rebind)
    ensures
        match resolved {
            Err(reason) => r == Rebind::Skip(reason),
            Ok(chord) => if chord@ == current@ {
                r is Keep
            } else {
                r == Rebind::Bind(chord)
            },
        },
{
    match resolved {
        Err(reason) => Rebind::Skip(reason),
        Ok(chord) => {
            if same_codes(&chord, current) {
                Rebind::Keep
            } else {
                Rebind::Bind(chord)
            }
        },
    }
}

/// Whether two chords have the same keys in the same order.
pub(crate) fn same_codes(a: &Vec<u32>, b: &Vec<u32>) -> (r: bool)
    ensures
        r == (a@ == b@),
{
    if a.len() != b.len() {
        return false;
    }
    let mut i: usize = 0;
    while i < a.len()
        invariant
            i <= a.len(),
            a@.len() == b@.len(),
            forall|j: int| 0 <= j < i ==> a@[j] == b@[j],
        decreases a.len() - i,
    {
        if a[i] != b[i] {
            return false;
        }
        i += 1;
    }
    assert(a@ =~= b@);
    true
}

/// Whether a character can be part of an element of an object path.
pub open spec fn is_path_element_char(c: char) -> bool {
    ||| 'A' <= c <= 'Z'
    ||| 'a' <= c <= 'z'
    ||| '0' <= c <= '9'
    ||| c == '_'
}

/// Whether `s` is a D-Bus object path: a slash, or elements of letters, digits and underscores
/// with a slash in front of each.
pub open spec fn is_object_path(s: Seq<char>) -> bool {
    &&& s.len() > 0
    &&& s[0] == '/'
    &&& forall|i: int| 0 <= i < s.len() ==> is_path_element_char(#[trigger] s[i]) || s[i] == '/'
    &&& forall|i: int| 0 < i < s.len() && #[trigger] s[i] == '/' ==> s[i - 1] != '/'
    &&& s.len() > 1 ==> s.last() != '/'
}

/// Whether `s` can be one element of an object path.
pub open spec fn is_path_element(s: Seq<char>) -> bool {
    &&& s.len() > 0
    &&& forall|i: int| 0 <= i < s.len() ==> is_path_element_char(#[trigger] s[i])
}

/// The path of a request object is a valid object path, for a bus name of letters, digits,
/// underscores and dots behind its colon, and a token that can be an element of a path.
pub proof fn law_request_path_is_object_path(unique: Seq<char>, token: Seq<char>)
    requires
        is_path_element(sender_element(unique)),
        is_path_element(token),
    ensures
        is_object_path(request_object(unique, token)),
{
    reveal_strlit("/org/freedesktop/portal/desktop/request/");
    reveal_strlit("/");
    let prefix = "/org/freedesktop/portal/desktop/request/"@;
    let sender = sender_element(unique);
    let path = request_object(unique, token);
    let at: int = prefix.len() as int + sender.len() as int;
    assert forall|i: int| 0 <= i < path.len() implies {
        &&& is_path_element_char(#[trigger] path[i]) || path[i] == '/'
        &&& i > 0 && path[i] == '/' ==> path[i - 1] != '/'
    } by {
        if i < prefix.len() {
            assert(path[i] == prefix[i]);
            if i > 0 {
                assert(path[i - 1] == prefix[i - 1]);
            }
        } else if i < at {
            assert(path[i] == sender[i - prefix.len()]);
        } else if i == at {
            assert(path[i - 1] == sender[sender.len() - 1]);
        } else {
            assert(path[i] == token[i - at - 1]);
        }
    }
    assert(path.last() == token[token.len() - 1]);
}

/// The path of a request object, for a name behind any number of colons: the portal's prefix, the
/// whole name with `_` at each place of a dot and its own character at every other, a slash, and
/// the whole token.
pub proof fn law_request_path_spells_the_whole_name(
    colons: Seq<char>,
    name: Seq<char>,
    token: Seq<char>,
    i: int,
)
    requires
        forall|k: int| 0 <= k < colons.len() ==> #[trigger] colons[k] == ':',
        name.len() > 0 ==> name[0] != ':',
    ensures
        ({
            let prefix = "/org/freedesktop/portal/desktop/request/"@;
            let sender = sender_element(colons + name);
            &&& sender.len() == name.len()
            &&& 0 <= i < name.len() ==> sender[i] == if name[i] == '.' {
                '_'
            } else {
                name[i]
            }
            &&& request_object(colons + name, token) == prefix + sender + seq!['/'] + token
            &&& request_object(colons + name, token).len() == prefix.len() + name.len() + 1
                + token.len()
        }),
    decreases colons.len(),
{
    reveal_strlit("/");
    let unique = colons + name;
    if colons.len() > 0 {
        assert(unique[0] == colons[0]);
        assert(unique.skip(1) =~= colons.skip(1) + name);
        law_request_path_spells_the_whole_name(colons.skip(1), name, token, i);
    } else {
        assert(unique =~= name);
    }
    assert("/"@ =~= seq!['/']);
}

/// A list shows its numbers in base ten, in order, with a comma and a space between each two.
pub proof fn law_list_shows_every_number(codes: Seq<u32>, code: u32)
    ensures
        list_items(Seq::<u32>::empty()) == Seq::<char>::empty(),
        list_items(seq![code]) == number::decimal(code as nat),
        codes.len() > 0 ==> list_items(codes.push(code)) == list_items(codes) + ", "@
            + number::decimal(code as nat),
{
    assert(codes.push(code).drop_last() =~= codes);
}

/// The chord to bind is the one in the settings, key by key, where that has a trigger; otherwise a
/// message names its keys, or says that there is no chord.
pub proof fn law_only_a_chord_with_a_trigger_is_bound(codes: Seq<u32>, has_trigger: bool)
    ensures
        resolved(Some(codes), true) == Ok::<Seq<u32>, Seq<char>>(codes),
        resolved(Some(codes), false) == Err::<Seq<u32>, Seq<char>>(
            "push-to-talk chord ["@ + list_items(codes)
                + "] can't be a portal trigger (modifier-only chords are rejected by KDE). Set a chord that includes a regular key, or use WISPR_CAPTURE=evdev."@,
        ),
        resolved(None, has_trigger) == Err::<Seq<u32>, Seq<char>>(
            "no push-to-talk shortcut found in the app config; set one in Wispr Flow first"@,
        ),
{
}

/// What resolving the settings gives: without settings, or with ones that hold no chord, the
/// message that there is none; with a chord, that very chord where the trigger that `to_trigger`
/// was asked for it came back, and otherwise the message that names its keys.
pub proof fn law_settings_resolve_to_their_chord<F: Fn(&Vec<u32>) -> Option<String>>(
    content: Option<Seq<char>>,
    to_trigger: F,
    r: Result<Seq<u32>, Seq<char>>,
)
    requires
        resolves_to(content, to_trigger, r),
    ensures
        content is None || config::ptt_chord_of_text(content->0) is None ==> r == Err::<
            Seq<u32>,
            Seq<char>,
        >("no push-to-talk shortcut found in the app config; set one in Wispr Flow first"@),
        content is Some && config::ptt_chord_of_text(content->0) is Some ==> exists|
            arg: Vec<u32>,
            got: Option<String>,
        |
            {
                let codes = config::ptt_chord_of_text(content->0)->0;
                &&& arg@ == codes
                &&& #[trigger] call_ensures(to_trigger, (&arg,), got)
                &&& r == if got is Some {
                    Ok::<Seq<u32>, Seq<char>>(codes)
                } else {
                    Err::<Seq<u32>, Seq<char>>(
                        "push-to-talk chord ["@ + list_items(codes)
                            + "] can't be a portal trigger (modifier-only chords are rejected by KDE). Set a chord that includes a regular key, or use WISPR_CAPTURE=evdev."@,
                    )
                }
            },
{
}

/// A result says its chord key by key, or its message character by character, and so does a text.
pub proof fn law_result_says_what_it_holds(chord: Vec<u32>, message: String, text: &str)
    ensures
        text_view(Some(text)) == Some(text@),
        text_view(None) is None,
        result_view(Ok(chord)) == Ok::<Seq<u32>, Seq<char>>(chord@),
        result_view(Err(message)) == Err::<Seq<u32>, Seq<char>>(message@),
        config::chord_view(Some(chord)) == Some(chord@),
        config::chord_view(None) is None,
{
}

/// An object path goes on with a slash and an element, and a lone slash with an element; nothing
/// else may follow a path.
pub proof fn law_object_paths_grow_by_elements(path: Seq<char>, element: Seq<char>, c: char)
    requires
        element.len() > 0,
        forall|i: int|
            0 <= i < element.len() ==> {
                ||| 'A' <= #[trigger] element[i] <= 'Z'
                ||| 'a' <= element[i] <= 'z'
                ||| '0' <= element[i] <= '9'
                ||| element[i] == '_'
            },
    ensures
        is_object_path(seq!['/']),
        is_object_path(seq!['/'] + element),
        is_object_path(path) && path.len() > 1 ==> is_object_path(path + seq!['/'] + element),
        !is_object_path(Seq::<char>::empty()),
        path.len() > 0 ==> !is_object_path(path + seq!['/']),
        is_object_path(path.push(c)) ==> c == '/' || c == '_' || 'A' <= c <= 'Z' || 'a' <= c <= 'z'
            || '0' <= c <= '9',
        is_object_path(path) ==> path[0] == '/',
{
    let short = seq!['/'] + element;
    assert forall|i: int| 0 <= i < short.len() implies is_path_element_char(#[trigger] short[i])
        || short[i] == '/' by {
        if i > 0 {
            assert(short[i] == element[i - 1]);
        }
    }
    assert forall|i: int| 0 < i < short.len() && #[trigger] short[i] == '/' implies short[i - 1]
        != '/' by {
        assert(short[i] == element[i - 1]);
    }
    assert(short.last() == element[element.len() - 1]);
    let long = path + short;
    assert(path + seq!['/'] + element =~= long);
    if is_object_path(path) && path.len() > 1 {
        assert forall|i: int| 0 <= i < long.len() implies is_path_element_char(#[trigger] long[i])
            || long[i] == '/' by {
            if i < path.len() {
                assert(long[i] == path[i]);
            } else {
                assert(long[i] == short[i - path.len()]);
            }
        }
        assert forall|i: int| 0 < i < long.len() && #[trigger] long[i] == '/' implies long[i - 1]
            != '/' by {
            if i < path.len() {
                assert(path[i] == '/');
            } else if i == path.len() {
                assert(long[i - 1] == path.last());
            } else {
                assert(short[i - path.len()] == '/');
                assert(long[i - 1] == short[i - 1 - path.len()]);
            }
        }
        assert(long.last() == short.last());
    }
    if path.len() > 0 {
        assert((path + seq!['/']).last() == '/');
    }
    if is_object_path(path.push(c)) {
        assert(path.push(c)[path.len() as int] == c);
    }
}

} // verus!
