//! The record hotkey: its default, and the normalisation of what a user types
//! (`Ctrl+Alt+R`) into GTK's accelerator syntax (`<Ctrl><Alt>r`).
use vstd::prelude::*;

use crate::text::chars_equal_str as eq;
use crate::text::string_views;
use crate::text::{
    append_str, from_chars, lowercase_of, split_chars, split_on,
    to_chars, to_lowercase, trim_chars, trimmed, vec_views,
};

verus! {

/// The hotkey used when none is configured.
pub open spec fn default_hotkey_spec() -> Seq<char> {
    "<Ctrl><Alt>space"@
}

pub fn default_hotkey() -> (r: &'static str)
    ensures
        r@ == default_hotkey_spec(),
{
    "<Ctrl><Alt>space"
}

/// Whether hotkeys can be global in a session of the given type (the value
/// of `XDG_SESSION_TYPE`, if set): only an X11 session allows it.
pub fn global_hotkeys_supported(session_type: Option<&str>) -> (r: bool)
    ensures
        r == (match session_type {
            Some(t) => t@ == "x11"@,
            None => false,
        }),
{
    match session_type {
        Some(t) => {
            let v = to_chars(t);
            crate::text::chars_equal_str(&v, "x11")
        },
        None => false,
    }
}

/// A modifier key of an accelerator.
#[derive(Debug, Clone, Copy, PartialEq, Eq, Structural)]
pub enum Modifier {
    Ctrl,
    Alt,
    Shift,
    Super,
}

/// How GTK writes a modifier.
pub open spec fn modifier_text(m: Modifier) -> Seq<char> {
    match m {
        Modifier::Ctrl => "<Ctrl>"@,
        Modifier::Alt => "<Alt>"@,
        Modifier::Shift => "<Shift>"@,
        Modifier::Super => "<Super>"@,
    }
}

fn modifier_str(m: Modifier) -> (r: &'static str)
    ensures
        r@ == modifier_text(m),
{
    match m {
        Modifier::Ctrl => "<Ctrl>",
        Modifier::Alt => "<Alt>",
        Modifier::Shift => "<Shift>",
        Modifier::Super => "<Super>",
    }
}

/// The modifier that a lowercase token names, if it names one.
pub open spec fn modifier_named(t: Seq<char>) -> Option<Modifier> {
    if t == "ctrl"@ || t == "control"@ {
        Some(Modifier::Ctrl)
    } else if t == "alt"@ {
        Some(Modifier::Alt)
    } else if t == "shift"@ {
        Some(Modifier::Shift)
    } else if t == "super"@ || t == "meta"@ || t == "win"@ || t == "logo"@ {
        Some(Modifier::Super)
    } else {
        None
    }
}

fn modifier_from(t: &Vec<char>) -> (r: Option<Modifier>)
    ensures
        r == modifier_named(t@),
{
    if eq(t, "ctrl") || eq(t, "control") {
        Some(Modifier::Ctrl)
    } else if eq(t, "alt") {
        Some(Modifier::Alt)
    } else if eq(t, "shift") {
        Some(Modifier::Shift)
    } else if eq(t, "super") || eq(t, "meta") || eq(t, "win") || eq(t, "logo") {
        Some(Modifier::Super)
    } else {
        None
    }
}

/// `mods` with `m` added at the end unless it is already there.
pub open spec fn with_unique(mods: Seq<Modifier>, m: Modifier) -> Seq<Modifier> {
    if mods.contains(m) {
        mods
    } else {
        mods.push(m)
    }
}

/// Adds `value` at the end of `target` unless it is already there.
fn push_unique(target: &mut Vec<Modifier>, value: Modifier)
    ensures
        final(target)@ == with_unique(old(target)@, value),
{
    let n = target.len();
    for i in 0..n
        invariant
            n == target.len(),
            target@ == old(target)@,
            forall|j: int| 0 <= j < i ==> target@[j] != value,
    {
        if target[i] == value {
            assert(target@.contains(value));
            return;
        }
    }
    assert(!target@.contains(value));
    target.push(value);
}

/// Where reading the tokens of a hotkey has got to.
pub enum Scan {
    /// A second non-modifier key was met.
    TwoKeys,
    /// The modifiers met so far, first occurrence first, and the key, if any.
    Reading { mods: Seq<Modifier>, key: Option<Seq<char>> },
}

/// The result of reading the normalised tokens `norms` in order: empty tokens
/// are skipped, modifiers are collected once each, and at most one other
/// token is taken as the key.
pub open spec fn scan(norms: Seq<Seq<char>>) -> Scan
    decreases norms.len(),
{
    if norms.len() == 0 {
        Scan::Reading { mods: Seq::empty(), key: None }
    } else {
        match scan(norms.drop_last()) {
            Scan::TwoKeys => Scan::TwoKeys,
            Scan::Reading { mods, key } => {
                let t = norms.last();
                if t.len() == 0 {
                    Scan::Reading { mods, key }
                } else {
                    match modifier_named(t) {
                        Some(m) => Scan::Reading { mods: with_unique(mods, m), key },
                        None => if key is Some {
                            Scan::TwoKeys
                        } else {
                            Scan::Reading { mods, key: Some(t) }
                        },
                    }
                }
            },
        }
    }
}

/// Each token trimmed and made lowercase.
pub open spec fn normalized_tokens(toks: Seq<Seq<char>>) -> Seq<Seq<char>> {
    Seq::new(toks.len(), |i: int| lowercase_of(trimmed(toks[i])))
}

/// The GTK spelling of a list of modifiers.
pub open spec fn modifiers_text(mods: Seq<Modifier>) -> Seq<char>
    decreases mods.len(),
{
    if mods.len() == 0 {
        Seq::empty()
    } else {
        modifiers_text(mods.drop_last()) + modifier_text(mods.last())
    }
}

/// What the normalised tokens of a hotkey (each trimmed and made
/// lowercase) make as a GTK accelerator, or why they make none.
pub open spec fn accelerator_of_tokens(norms: Seq<Seq<char>>) -> Result<Seq<char>, Seq<char>> {
    match scan(norms) {
        Scan::TwoKeys => Err("hotkey must have exactly one key"@),
        Scan::Reading { mods, key } => match key {
            Some(k) => Ok(modifiers_text(mods) + k),
            None => Err("hotkey must include a non-modifier key"@),
        },
    }
}

/// What a hotkey text means as a GTK accelerator, or why it has none.
pub open spec fn accelerator(input: Seq<char>) -> Result<Seq<char>, Seq<char>> {
    let t = trimmed(input);
    if t.len() == 0 {
        Err("hotkey cannot be empty"@)
    } else if t[0] == '<' {
        Ok(t)
    } else {
        accelerator_of_tokens(normalized_tokens(split_on(t, '+')))
    }
}

/// The key held so far, as a character sequence.
pub open spec fn key_view(key: Option<Vec<char>>) -> Option<Seq<char>> {
    match key {
        Some(k) => Some(k@),
        None => None,
    }
}

/// Builds the GTK accelerator from the normalised tokens of a hotkey (each
/// `+`-separated token trimmed and made lowercase), in order: empty tokens
/// are skipped, modifiers are written once each in the order they first
/// appear, and exactly one other token is the key.
pub fn accelerator_from_tokens(normalized: &Vec<String>) -> (r: Result<String, &'static str>)
    ensures
        match r {
            Ok(s) => accelerator_of_tokens(string_views(normalized@)) == Ok::<
                Seq<char>,
                Seq<char>,
            >(s@),
            Err(e) => accelerator_of_tokens(string_views(normalized@)) == Err::<
                Seq<char>,
                Seq<char>,
            >(e@),
        },
{
    let ghost norms = string_views(normalized@);
    let n = normalized.len();
    let mut modifiers: Vec<Modifier> = Vec::new();
    let mut key: Option<Vec<char>> = None;
    assert(norms.take(0) =~= Seq::<Seq<char>>::empty());
    for i in 0..n
        invariant
            n == normalized.len(),
            norms == string_views(normalized@),
            scan(norms.take(i as int)) == (Scan::Reading { mods: modifiers@, key: key_view(key) }),
    {
        let norm = to_chars(normalized[i].as_str());
        assert(norm@ == norms[i as int]);
        assert(norms.take(i + 1).drop_last() =~= norms.take(i as int));
        assert(norms.take(i + 1).last() == norms[i as int]);
        if norm.len() > 0 {
            match modifier_from(&norm) {
                Some(m) => {
                    push_unique(&mut modifiers, m);
                },
                None => {
                    if key.is_some() {
                        assert(scan(norms.take(i + 1)) == Scan::TwoKeys);
                        proof {
                            lemma_scan_two_keys_sticks(norms, i + 1);
                        }
                        return Err("hotkey must have exactly one key");
                    }
                    key = Some(norm);
                },
            }
        }
    }
    assert(norms.take(n as int) =~= norms);
    match key {
        None => Err("hotkey must include a non-modifier key"),
        Some(k) => {
            let mut out: Vec<char> = Vec::new();
            let m = modifiers.len();
            assert(modifiers@.take(0) =~= Seq::<Modifier>::empty());
            for j in 0..m
                invariant
                    m == modifiers.len(),
                    out@ == modifiers_text(modifiers@.take(j as int)),
            {
                append_str(&mut out, modifier_str(modifiers[j]));
                assert(modifiers@.take(j + 1).drop_last() =~= modifiers@.take(j as int));
            }
            assert(modifiers@.take(m as int) =~= modifiers@);
            crate::text::append_chars(&mut out, &k);
            Ok(from_chars(&out))
        },
    }
}

/// How typed tokens become an accelerator, for any key `k` and `k2` that
/// name no modifier: `ctrl`/`control`, `alt`, `shift` and
/// `super`/`meta`/`win`/`logo` become `<Ctrl>`, `<Alt>`, `<Shift>` and
/// `<Super>` in the order first met, each once, before the key wherever the
/// key stands; empty tokens are skipped; two keys, or none, are refused.
#[verifier::spinoff_prover]
pub proof fn lemma_hotkey_tokens(k: Seq<char>, k2: Seq<char>)
    requires
        k.len() > 0,
        k2.len() > 0,
        k != "ctrl"@ && k != "control"@ && k != "alt"@ && k != "shift"@ && k != "super"@ && k
            != "meta"@ && k != "win"@ && k != "logo"@,
        k2 != "ctrl"@ && k2 != "control"@ && k2 != "alt"@ && k2 != "shift"@ && k2 != "super"@
            && k2 != "meta"@ && k2 != "win"@ && k2 != "logo"@,
    ensures
        accelerator_of_tokens(seq!["ctrl"@, "alt"@, k]) == Ok::<Seq<char>, Seq<char>>(
            "<Ctrl>"@ + "<Alt>"@ + k,
        ),
        accelerator_of_tokens(seq![k, "shift"@, "control"@]) == Ok::<Seq<char>, Seq<char>>(
            "<Shift>"@ + "<Ctrl>"@ + k,
        ),
        accelerator_of_tokens(seq!["ctrl"@, "control"@, Seq::empty(), k]) == Ok::<
            Seq<char>,
            Seq<char>,
        >("<Ctrl>"@ + k),
        accelerator_of_tokens(seq!["super"@, k]) == Ok::<Seq<char>, Seq<char>>("<Super>"@ + k),
        accelerator_of_tokens(seq!["meta"@, k]) == Ok::<Seq<char>, Seq<char>>("<Super>"@ + k),
        accelerator_of_tokens(seq!["win"@, k]) == Ok::<Seq<char>, Seq<char>>("<Super>"@ + k),
        accelerator_of_tokens(seq!["logo"@, k]) == Ok::<Seq<char>, Seq<char>>("<Super>"@ + k),
        accelerator_of_tokens(seq![k]) == Ok::<Seq<char>, Seq<char>>(k),
        accelerator_of_tokens(seq![k, k2]) == Err::<Seq<char>, Seq<char>>(
            "hotkey must have exactly one key"@,
        ),
        accelerator_of_tokens(seq!["ctrl"@, "shift"@]) == Err::<Seq<char>, Seq<char>>(
            "hotkey must include a non-modifier key"@,
        ),
{
    reveal_strlit("ctrl");
    reveal_strlit("control");
    reveal_strlit("alt");
    reveal_strlit("shift");
    reveal_strlit("super");
    reveal_strlit("meta");
    reveal_strlit("win");
    reveal_strlit("logo");
    assert("ctrl"@.len() == 4 && "control"@.len() == 7 && "alt"@.len() == 3 && "shift"@.len()
        == 5 && "super"@.len() == 5 && "meta"@.len() == 4 && "win"@.len() == 3 && "logo"@.len()
        == 4);
    assert("ctrl"@[0] != "meta"@[0] && "ctrl"@[0] != "logo"@[0] && "alt"@[0] != "win"@[0]
        && "shift"@[1] != "super"@[1] && "meta"@[0] != "logo"@[0]);
    assert(modifier_named("ctrl"@) == Some(Modifier::Ctrl));
    assert(modifier_named("control"@) == Some(Modifier::Ctrl));
    assert(modifier_named("alt"@) == Some(Modifier::Alt));
    assert(modifier_named("shift"@) == Some(Modifier::Shift));
    assert(modifier_named("super"@) == Some(Modifier::Super));
    assert(modifier_named("meta"@) == Some(Modifier::Super));
    assert(modifier_named("win"@) == Some(Modifier::Super));
    assert(modifier_named("logo"@) == Some(Modifier::Super));
    assert(modifier_named(k) is None);
    assert(modifier_named(k2) is None);
    let e = Seq::<Seq<char>>::empty();
    let none = Seq::<Modifier>::empty();
    assert(scan(e) == (Scan::Reading { mods: none, key: None }));
    assert(!none.contains(Modifier::Ctrl) && !none.contains(Modifier::Shift) && !none.contains(
        Modifier::Super,
    ));
    assert(scan(seq![k]) == (Scan::Reading { mods: none, key: Some(k) })) by {
        assert(seq![k].drop_last() =~= e);
    }
    // ctrl alt k
    let a = seq!["ctrl"@, "alt"@, k];
    assert(a.drop_last().drop_last().drop_last() =~= e);
    assert(scan(seq!["ctrl"@]) == (Scan::Reading { mods: seq![Modifier::Ctrl], key: None })) by {
        assert(seq!["ctrl"@].drop_last() =~= e);
        assert(none.push(Modifier::Ctrl) =~= seq![Modifier::Ctrl]);
    }
    assert(a.drop_last().drop_last() =~= seq!["ctrl"@]);
    assert(!seq![Modifier::Ctrl].contains(Modifier::Alt)) by {
        assert(seq![Modifier::Ctrl][0] != Modifier::Alt);
    }
    assert(seq![Modifier::Ctrl].push(Modifier::Alt) =~= seq![Modifier::Ctrl, Modifier::Alt]);
    assert(scan(a.drop_last()) == (Scan::Reading {
        mods: seq![Modifier::Ctrl, Modifier::Alt],
        key: None,
    }));
    assert(scan(a) == (Scan::Reading { mods: seq![Modifier::Ctrl, Modifier::Alt], key: Some(k) }));
    assert(seq![Modifier::Ctrl, Modifier::Alt].drop_last() =~= seq![Modifier::Ctrl]);
    assert(seq![Modifier::Ctrl].drop_last() =~= none);
    assert(modifiers_text(seq![Modifier::Ctrl]) == "<Ctrl>"@) by {
        assert(modifiers_text(none) == Seq::<char>::empty());
        assert(Seq::<char>::empty() + "<Ctrl>"@ =~= "<Ctrl>"@);
    }
    // k shift control
    let b = seq![k, "shift"@, "control"@];
    assert(b.drop_last().drop_last() =~= seq![k]);
    assert(scan(b.drop_last().drop_last()) == (Scan::Reading { mods: none, key: Some(k) }));
    assert(scan(b.drop_last()) == (Scan::Reading { mods: seq![Modifier::Shift], key: Some(k) }))
        by {
        assert(none.push(Modifier::Shift) =~= seq![Modifier::Shift]);
    }
    assert(!seq![Modifier::Shift].contains(Modifier::Ctrl)) by {
        assert(seq![Modifier::Shift][0] != Modifier::Ctrl);
    }
    assert(scan(b) == (Scan::Reading {
        mods: seq![Modifier::Shift, Modifier::Ctrl],
        key: Some(k),
    })) by {
        assert(seq![Modifier::Shift].push(Modifier::Ctrl) =~= seq![Modifier::Shift, Modifier::Ctrl]);
    }
    assert(seq![Modifier::Shift, Modifier::Ctrl].drop_last() =~= seq![Modifier::Shift]);
    assert(seq![Modifier::Shift].drop_last() =~= none);
    assert(modifiers_text(seq![Modifier::Shift]) == "<Shift>"@) by {
        assert(Seq::<char>::empty() + "<Shift>"@ =~= "<Shift>"@);
    }
    // ctrl control "" k
    let c = seq!["ctrl"@, "control"@, Seq::empty(), k];
    assert(c.drop_last().drop_last().drop_last().drop_last() =~= e);
    assert(c.drop_last().drop_last().drop_last() =~= seq!["ctrl"@]);
    assert(scan(seq!["ctrl"@]) == (Scan::Reading { mods: seq![Modifier::Ctrl], key: None })) by {
        assert(seq!["ctrl"@].drop_last() =~= e);
        assert(none.push(Modifier::Ctrl) =~= seq![Modifier::Ctrl]);
    }
    assert(seq![Modifier::Ctrl].contains(Modifier::Ctrl)) by {
        assert(seq![Modifier::Ctrl][0] == Modifier::Ctrl);
    }
    assert(scan(c.drop_last().drop_last()) == (Scan::Reading {
        mods: seq![Modifier::Ctrl],
        key: None,
    }));
    assert(scan(c.drop_last()) == (Scan::Reading { mods: seq![Modifier::Ctrl], key: None }));
    assert(scan(c) == (Scan::Reading { mods: seq![Modifier::Ctrl], key: Some(k) }));
    // one modifier then k
    assert(seq!["super"@, k].drop_last() =~= seq!["super"@]);
    assert(seq!["meta"@, k].drop_last() =~= seq!["meta"@]);
    assert(seq!["win"@, k].drop_last() =~= seq!["win"@]);
    assert(seq!["logo"@, k].drop_last() =~= seq!["logo"@]);
    assert(seq!["super"@].drop_last() =~= e);
    assert(seq!["meta"@].drop_last() =~= e);
    assert(seq!["win"@].drop_last() =~= e);
    assert(seq!["logo"@].drop_last() =~= e);
    assert(none.push(Modifier::Super) =~= seq![Modifier::Super]);
    assert(scan(seq!["super"@]) == (Scan::Reading { mods: seq![Modifier::Super], key: None }));
    assert(scan(seq!["meta"@]) == (Scan::Reading { mods: seq![Modifier::Super], key: None }));
    assert(scan(seq!["win"@]) == (Scan::Reading { mods: seq![Modifier::Super], key: None }));
    assert(scan(seq!["logo"@]) == (Scan::Reading { mods: seq![Modifier::Super], key: None }));
    assert(scan(seq!["win"@, k]) == (Scan::Reading {
        mods: seq![Modifier::Super],
        key: Some(k),
    }));
    assert(scan(seq!["logo"@, k]) == (Scan::Reading {
        mods: seq![Modifier::Super],
        key: Some(k),
    }));
    assert(scan(seq!["super"@, k]) == (Scan::Reading {
        mods: seq![Modifier::Super],
        key: Some(k),
    }));
    assert(scan(seq!["meta"@, k]) == (Scan::Reading {
        mods: seq![Modifier::Super],
        key: Some(k),
    }));
    assert(seq![Modifier::Super].drop_last() =~= none);
    assert(modifiers_text(seq![Modifier::Super]) == "<Super>"@) by {
        assert(Seq::<char>::empty() + "<Super>"@ =~= "<Super>"@);
    }
    // k alone, two keys, no key
    assert(seq![k].drop_last() =~= e);
    assert(modifiers_text(none) + k =~= k);
    assert(seq![k, k2].drop_last() =~= seq![k]);
    let d = seq!["ctrl"@, "shift"@];
    assert(d.drop_last() =~= seq!["ctrl"@]);
    assert(scan(d) is Reading && scan(d)->key is None);
}

/// Normalises a hotkey to GTK accelerator syntax. Text that already starts
/// with `<` (after trimming) is kept as it is; otherwise `+`-separated tokens
/// are read case-insensitively as modifiers (`ctrl`/`control`, `alt`,
/// `shift`, `super`/`meta`/`win`/`logo`) and exactly one key.
pub fn to_gtk_accelerator(input: &str) -> (r: Result<String, &'static str>)
    ensures
        match r {
            Ok(s) => accelerator(input@) == Ok::<Seq<char>, Seq<char>>(s@),
            Err(e) => accelerator(input@) == Err::<Seq<char>, Seq<char>>(e@),
        },
{
    let v = to_chars(input);
    let t = trim_chars(&v);
    if t.len() == 0 {
        return Err("hotkey cannot be empty");
    }
    if t[0] == '<' {
        return Ok(from_chars(&t));
    }
    let toks = split_chars(&t, '+');
    let ghost all = normalized_tokens(vec_views(toks@));
    let n = toks.len();
    let mut normalized: Vec<String> = Vec::new();
    for i in 0..n
        invariant
            n == toks.len(),
            all == normalized_tokens(vec_views(toks@)),
            normalized@.len() == i,
            forall|j: int| 0 <= j < i ==> #[trigger] normalized@[j]@ == all[j],
    {
        let tt = trim_chars(&toks[i]);
        let ts = from_chars(&tt);
        normalized.push(to_lowercase(ts.as_str()));
    }
    assert(string_views(normalized@) =~= all);
    accelerator_from_tokens(&normalized)
}

/// Once two keys have been read, reading further tokens changes nothing.
proof fn lemma_scan_two_keys_sticks(norms: Seq<Seq<char>>, k: int)
    requires
        0 <= k <= norms.len(),
        scan(norms.take(k)) == Scan::TwoKeys,
    ensures
        scan(norms) == Scan::TwoKeys,
    decreases norms.len() - k,
{
    if k < norms.len() {
        assert(norms.take(k + 1).drop_last() =~= norms.take(k));
        lemma_scan_two_keys_sticks(norms, k + 1);
    } else {
        assert(norms.take(k) =~= norms);
    }
}

/// An accelerator already written in GTK syntax is kept, so normalising it
/// again gives the same result.
pub proof fn lemma_gtk_syntax_is_fixed(input: Seq<char>)
    requires
        trimmed(input).len() > 0,
        trimmed(input)[0] == '<',
    ensures
        accelerator(input) == Ok::<Seq<char>, Seq<char>>(trimmed(input)),
        accelerator(trimmed(input)) == accelerator(input),
{
    crate::text::lemma_trimmed_ends(input);
    crate::text::lemma_trim_fixed(trimmed(input));
}

/// The modifiers gathered while reading a hotkey are all different: each
/// modifier is written at most once, in the order it first appears.
pub proof fn lemma_modifiers_distinct(norms: Seq<Seq<char>>)
    ensures
        scan(norms) matches Scan::Reading { mods, key } ==> forall|i: int, j: int|
            0 <= i < j < mods.len() ==> mods[i] != mods[j],
    decreases norms.len(),
{
    if norms.len() > 0 {
        lemma_modifiers_distinct(norms.drop_last());
        match scan(norms.drop_last()) {
            Scan::Reading { mods, key } => {
                let t = norms.last();
                if t.len() > 0 {
                    match modifier_named(t) {
                        Some(m) => {
                            if !mods.contains(m) {
                                let nm = mods.push(m);
                                assert forall|i: int, j: int| 0 <= i < j < nm.len() implies nm[i]
                                    != nm[j] by {
                                    if j == mods.len() {
                                        assert(nm[i] == mods[i]);
                                        if nm[i] == m {
                                            assert(mods.contains(m));
                                        }
                                    } else {
                                        assert(nm[i] == mods[i]);
                                        assert(nm[j] == mods[j]);
                                    }
                                }
                            }
                        },
                        None => {},
                    }
                }
            },
            Scan::TwoKeys => {},
        }
    }
}

/// The GTK spelling of a non-empty list of modifiers starts with `<`.
proof fn lemma_modifiers_text_starts(mods: Seq<Modifier>)
    requires
        mods.len() > 0,
    ensures
        modifiers_text(mods).len() > 0,
        modifiers_text(mods)[0] == '<',
    decreases mods.len(),
{
    reveal_strlit("<Ctrl>");
    reveal_strlit("<Alt>");
    reveal_strlit("<Shift>");
    reveal_strlit("<Super>");
    if mods.len() > 1 {
        lemma_modifiers_text_starts(mods.drop_last());
    } else {
        assert(modifiers_text(mods.drop_last()) =~= Seq::<char>::empty());
        assert(modifiers_text(mods) =~= modifier_text(mods.last()));
    }
}

/// An accelerator that starts with `<` (one written in GTK syntax, or one
/// built with at least one modifier) is read back as itself, trimmed; a
/// second normalisation of such a result is therefore final.
pub proof fn lemma_accelerator_reread(input: Seq<char>, out: Seq<char>)
    requires
        accelerator(input) == Ok::<Seq<char>, Seq<char>>(out),
        out.len() > 0,
        out[0] == '<',
    ensures
        accelerator(out) == Ok::<Seq<char>, Seq<char>>(trimmed(out)),
        accelerator(trimmed(out)) == Ok::<Seq<char>, Seq<char>>(trimmed(out)),
{
    crate::text::lemma_trimmed_ends(out);
    crate::text::lemma_trim_empty_iff_all_ws(out);
    assert(!crate::text::is_ws(out[0]));
    assert(trimmed(out).len() > 0);
    assert(crate::text::trim_start(out) == out);
    lemma_trim_end_keeps_head(out);
    lemma_gtk_syntax_is_fixed(out);
}

/// Trimming the end of a text that does not start with whitespace keeps its
/// first character.
proof fn lemma_trim_end_keeps_head(s: Seq<char>)
    requires
        s.len() > 0,
        !crate::text::is_ws(s[0]),
    ensures
        crate::text::trim_end(s).len() > 0,
        crate::text::trim_end(s)[0] == s[0],
    decreases s.len(),
{
    if s.len() > 1 && crate::text::is_ws(s.last()) {
        assert(s.drop_last()[0] == s[0]);
        lemma_trim_end_keeps_head(s.drop_last());
    }
}

/// A normalised result that has modifiers starts with `<`.
pub proof fn lemma_built_accelerator_starts_with_modifier(input: Seq<char>)
    requires
        trimmed(input).len() > 0,
        trimmed(input)[0] != '<',
        scan(normalized_tokens(split_on(trimmed(input), '+'))) matches Scan::Reading { mods, key }
            && key is Some && mods.len() > 0,
    ensures
        accelerator(input) matches Ok(out) && out.len() > 0 && out[0] == '<',
{
    match scan(normalized_tokens(split_on(trimmed(input), '+'))) {
        Scan::Reading { mods, key } => {
            lemma_modifiers_text_starts(mods);
            let out = modifiers_text(mods) + key->0;
            assert(out[0] == modifiers_text(mods)[0]);
        },
        Scan::TwoKeys => {},
    }
}

/// Checks what GTK made of an accelerator string: it must have parsed, and
/// name a real key together with at least one modifier.
pub fn check_parsed_accelerator(parsed: bool, key_is_void: bool, has_modifiers: bool) -> (r:
    Result<(), &'static str>)
    ensures
        !parsed ==> (r matches Err(e) && e@ == "could not parse accelerator string"@),
        parsed && (key_is_void || !has_modifiers) ==> (r matches Err(e) && e@
            == "use at least one modifier and one key"@),
        parsed && !key_is_void && has_modifiers ==> r is Ok,
{
    if !parsed {
        return Err("could not parse accelerator string");
    }
    if key_is_void || !has_modifiers {
        return Err("use at least one modifier and one key");
    }
    Ok(())
}

} // verus!
