//! The save-document codec.
//!
//! A player is persisted as a single-line JSON-shaped document with the four
//! fields in a fixed order, string values quoted with `"` and `\` escaped by
//! a backslash, and the two list fields written as arrays of strings:
//!
//! `{"name":N,"current_location":L,"inventory":I,"completed_quests":Q}`
//!
//! The encoder and the parser are both specified against the spec functions
//! below, and parsing an encoded document is proved to give back exactly the
//! player that was encoded.

use vstd::prelude::*;
use vstd::string::StrSliceExecFns;
use vstd::string::StringExecFns;
use crate::player::{Player, PlayerView};

verus! {

/// The two characters that must be escaped inside a quoted string.
pub open spec fn is_esc_special(c: char) -> bool {
    c == '"' || c == '\\'
}

/// How one character is written inside a quoted string.
pub open spec fn esc_char(c: char) -> Seq<char> {
    if is_esc_special(c) {
        seq!['\\', c]
    } else {
        seq![c]
    }
}

/// How a whole string value is written, quotes not included.
pub open spec fn esc(s: Seq<char>) -> Seq<char>
    decreases s.len(),
{
    if s.len() == 0 {
        Seq::empty()
    } else {
        esc_char(s[0]) + esc(s.skip(1))
    }
}

/// Reads a quoted string's body: `s` starts right after the opening quote.
/// Yields the unescaped content and the count of characters consumed, the
/// closing quote included.
pub open spec fn parse_str(s: Seq<char>) -> Option<(Seq<char>, nat)>
    decreases s.len(),
{
    if s.len() == 0 {
        None
    } else if s[0] == '"' {
        Some((Seq::empty(), 1nat))
    } else if s[0] == '\\' {
        if s.len() >= 2 && is_esc_special(s[1]) {
            match parse_str(s.skip(2)) {
                None => None,
                Some(r) => Some((seq![s[1]] + r.0, (r.1 + 2) as nat)),
            }
        } else {
            None
        }
    } else {
        match parse_str(s.skip(1)) {
            None => None,
            Some(r) => Some((seq![s[0]] + r.0, (r.1 + 1) as nat)),
        }
    }
}

/// How the elements of a non-empty array are written: each one quoted, with
/// commas in between.
pub open spec fn enc_items(v: Seq<Seq<char>>) -> Seq<char>
    decreases v.len(),
{
    if v.len() == 0 {
        Seq::empty()
    } else if v.len() == 1 {
        seq!['"'] + esc(v[0]) + seq!['"']
    } else {
        seq!['"'] + esc(v[0]) + seq!['"'] + seq![','] + enc_items(v.skip(1))
    }
}

/// How an array of strings is written.
pub open spec fn enc_arr(v: Seq<Seq<char>>) -> Seq<char> {
    if v.len() == 0 {
        seq!['[', ']']
    } else {
        seq!['['] + enc_items(v) + seq![']']
    }
}

/// Reads the elements of a non-empty array: `s` starts at the first
/// element's opening quote. Consumes up to and including the closing `]`.
pub open spec fn parse_items(s: Seq<char>) -> Option<(Seq<Seq<char>>, nat)>
    decreases s.len(),
{
    if s.len() == 0 || s[0] != '"' {
        None
    } else {
        match parse_str(s.skip(1)) {
            None => None,
            Some(r) => {
                let p = (r.1 + 1) as int;
                if p < s.len() && s[p] == ']' {
                    Some((seq![r.0], (p + 1) as nat))
                } else if p < s.len() && s[p] == ',' {
                    match parse_items(s.skip(p + 1)) {
                        None => None,
                        Some(r2) => Some((seq![r.0] + r2.0, (p + 1 + r2.1) as nat)),
                    }
                } else {
                    None
                }
            },
        }
    }
}

/// Reads an array of strings: `s` starts at the `[`. Consumes up to and
/// including the closing `]`.
pub open spec fn parse_arr(s: Seq<char>) -> Option<(Seq<Seq<char>>, nat)> {
    if s.len() >= 2 && s[0] == '[' && s[1] == ']' {
        Some((Seq::empty(), 2nat))
    } else if s.len() >= 1 && s[0] == '[' {
        match parse_items(s.skip(1)) {
            None => None,
            Some(r) => Some((r.0, (r.1 + 1) as nat)),
        }
    } else {
        None
    }
}

/// Does `lit` stand in `s` at position `i`?
pub open spec fn prefix_at(s: Seq<char>, i: int, lit: Seq<char>) -> bool {
    0 <= i && i + lit.len() <= s.len() && s.subrange(i, i + lit.len()) == lit
}

/// Opening of the document, up to and including the name's opening quote.
pub open spec fn lit_name() -> Seq<char> {
    "{\"name\":\""@
}

/// Between the name's closing quote and the location's opening quote.
pub open spec fn lit_location() -> Seq<char> {
    ",\"current_location\":\""@
}

/// Between the location's closing quote and the inventory array.
pub open spec fn lit_inventory() -> Seq<char> {
    ",\"inventory\":"@
}

/// Between the inventory array and the completed-quests array.
pub open spec fn lit_quests() -> Seq<char> {
    ",\"completed_quests\":"@
}

/// The document that stands for a player.
pub open spec fn enc_player(p: PlayerView) -> Seq<char> {
    lit_name() + esc(p.name) + seq!['"'] + lit_location() + esc(p.current_location) + seq!['"']
        + lit_inventory() + enc_arr(p.inventory) + lit_quests() + enc_arr(p.completed_quests)
        + seq!['}']
}

/// Reads a whole document; `None` is the format-error outcome.
pub open spec fn parse_player(s: Seq<char>) -> Option<PlayerView> {
    if !prefix_at(s, 0, lit_name()) {
        None
    } else {
        match parse_str(s.skip(lit_name().len() as int)) {
            None => None,
            Some(r1) => {
                let pos1 = lit_name().len() + r1.1;
                if !prefix_at(s, pos1 as int, lit_location()) {
                    None
                } else {
                    match parse_str(s.skip((pos1 + lit_location().len()) as int)) {
                        None => None,
                        Some(r2) => {
                            let pos2 = pos1 + lit_location().len() + r2.1;
                            if !prefix_at(s, pos2 as int, lit_inventory()) {
                                None
                            } else {
                                match parse_arr(s.skip((pos2 + lit_inventory().len()) as int)) {
                                    None => None,
                                    Some(r3) => {
                                        let pos3 = pos2 + lit_inventory().len() + r3.1;
                                        if !prefix_at(s, pos3 as int, lit_quests()) {
                                            None
                                        } else {
                                            match parse_arr(
                                                s.skip((pos3 + lit_quests().len()) as int),
                                            ) {
                                                None => None,
                                                Some(r4) => {
                                                    let pos4 = pos3 + lit_quests().len() + r4.1;
                                                    if pos4 + 1 == s.len() && s[pos4 as int]
                                                        == '}' {
                                                        Some(
                                                            PlayerView {
                                                                name: r1.0,
                                                                current_location: r2.0,
                                                                inventory: r3.0,
                                                                completed_quests: r4.0,
                                                            },
                                                        )
                                                    } else {
                                                        None
                                                    }
                                                },
                                            }
                                        }
                                    },
                                }
                            }
                        },
                    }
                }
            },
        }
    }
}

/// Reading a quoted string out of its own encoding, whatever follows the
/// closing quote, gives back exactly the string that was encoded.
pub proof fn lemma_parse_str_enc(x: Seq<char>, rest: Seq<char>)
    ensures
        parse_str(esc(x) + seq!['"'] + rest) == Some((x, (esc(x).len() + 1) as nat)),
    decreases x.len(),
{
    let s = esc(x) + seq!['"'] + rest;
    if x.len() == 0 {
        assert(esc(x) == Seq::<char>::empty());
        assert(s =~= seq!['"'] + rest);
        assert(s[0] == '"');
        assert(parse_str(s) == Some((Seq::<char>::empty(), 1nat)));
        assert(x =~= Seq::<char>::empty());
    } else {
        let x1 = x.skip(1);
        lemma_parse_str_enc(x1, rest);
        assert(esc(x) == esc_char(x[0]) + esc(x1));
        if is_esc_special(x[0]) {
            assert(esc_char(x[0]) == seq!['\\', x[0]]);
            assert(s[0] == '\\');
            assert(s[1] == x[0]);
            assert(s.len() >= 2);
            assert(s.skip(2) =~= esc(x1) + seq!['"'] + rest);
            assert(parse_str(s.skip(2)) == Some((x1, (esc(x1).len() + 1) as nat)));
            assert(seq![s[1]] + x1 =~= x);
            assert(esc(x).len() == 2 + esc(x1).len());
        } else {
            assert(esc_char(x[0]) == seq![x[0]]);
            assert(s[0] == x[0]);
            assert(s[0] != '"' && s[0] != '\\');
            assert(s.skip(1) =~= esc(x1) + seq!['"'] + rest);
            assert(parse_str(s.skip(1)) == Some((x1, (esc(x1).len() + 1) as nat)));
            assert(seq![s[0]] + x1 =~= x);
            assert(esc(x).len() == 1 + esc(x1).len());
        }
    }
}

/// Reading the elements of a non-empty array out of their own encoding gives
/// back exactly the elements that were encoded.
#[verifier::rlimit(100)]
pub proof fn lemma_parse_items_enc(v: Seq<Seq<char>>, rest: Seq<char>)
    requires
        v.len() >= 1,
    ensures
        parse_items(enc_items(v) + seq![']'] + rest) == Some(
            (v, (enc_items(v).len() + 1) as nat),
        ),
    decreases v.len(),
{
    let s = enc_items(v) + seq![']'] + rest;
    let e0 = esc(v[0]);
    if v.len() == 1 {
        assert(enc_items(v) == seq!['"'] + e0 + seq!['"']);
        assert(s =~= seq!['"'] + (e0 + seq!['"'] + (seq![']'] + rest)));
        assert(s[0] == '"');
        assert(s.skip(1) =~= e0 + seq!['"'] + (seq![']'] + rest));
        lemma_parse_str_enc(v[0], seq![']'] + rest);
        assert(parse_str(s.skip(1)) == Some((v[0], (e0.len() + 1) as nat)));
        let p = (e0.len() + 2) as int;
        assert(s.len() == e0.len() + 3 + rest.len());
        assert(p < s.len());
        assert(s[p] == ']');
        assert(seq![v[0]] =~= v);
        assert(parse_items(s) == Some((seq![v[0]], (p + 1) as nat)));
        assert(enc_items(v).len() == e0.len() + 2);
    } else {
        let v1 = v.skip(1);
        assert(enc_items(v) == seq!['"'] + e0 + seq!['"'] + seq![','] + enc_items(v1));
        assert(s =~= seq!['"'] + (e0 + seq!['"'] + (seq![','] + (enc_items(v1) + seq![']']
            + rest))));
        assert(s[0] == '"');
        assert(s.skip(1) =~= e0 + seq!['"'] + (seq![','] + (enc_items(v1) + seq![']'] + rest)));
        lemma_parse_str_enc(v[0], seq![','] + (enc_items(v1) + seq![']'] + rest));
        assert(parse_str(s.skip(1)) == Some((v[0], (e0.len() + 1) as nat)));
        let p = (e0.len() + 2) as int;
        assert(s.len() == e0.len() + 4 + enc_items(v1).len() + rest.len());
        assert(p < s.len());
        assert(s =~= (seq!['"'] + e0 + seq!['"'] + seq![',']) + (enc_items(v1) + seq![']']
            + rest));
        assert(s[p] == ',');
        assert(s[p] != ']');
        assert(s.skip(p + 1) =~= enc_items(v1) + seq![']'] + rest);
        lemma_parse_items_enc(v1, rest);
        assert(parse_items(s.skip(p + 1)) == Some((v1, (enc_items(v1).len() + 1) as nat)));
        assert(seq![v[0]] + v1 =~= v);
        assert(parse_items(s) == Some((seq![v[0]] + v1, (p + 1 + enc_items(v1).len() + 1) as nat)));
        assert(enc_items(v).len() == e0.len() + 3 + enc_items(v1).len());
    }
}

/// Reading an array out of its own encoding gives back exactly the strings
/// that were encoded.
pub proof fn lemma_parse_arr_enc(v: Seq<Seq<char>>, rest: Seq<char>)
    ensures
        parse_arr(enc_arr(v) + rest) == Some((v, enc_arr(v).len() as nat)),
{
    let s = enc_arr(v) + rest;
    if v.len() == 0 {
        assert(enc_arr(v) == seq!['[', ']']);
        assert(s.len() >= 2);
        assert(s[0] == '[');
        assert(s[1] == ']');
        assert(v =~= Seq::<Seq<char>>::empty());
    } else {
        assert(enc_arr(v) == seq!['['] + enc_items(v) + seq![']']);
        assert(s =~= seq!['['] + (enc_items(v) + seq![']'] + rest));
        assert(s[0] == '[');
        assert(enc_items(v).len() >= 1) by {
            assert(enc_items(v)[0] == '"');
        }
        assert(s[1] == enc_items(v)[0]);
        assert(s[1] != ']');
        assert(s.skip(1) =~= enc_items(v) + seq![']'] + rest);
        lemma_parse_items_enc(v, rest);
        assert(parse_arr(s) == Some((v, (enc_items(v).len() + 2) as nat)));
        assert(enc_arr(v).len() == enc_items(v).len() + 2);
    }
}

/// The round trip: a saved player, read back, is exactly the player that was
/// saved — name, location, inventory and completed quests alike.
#[verifier::rlimit(100)]
pub proof fn lemma_player_round_trip(p: PlayerView)
    ensures
        parse_player(enc_player(p)) == Some(p),
{
    reveal_strlit("{\"name\":\"");
    reveal_strlit(",\"current_location\":\"");
    reveal_strlit(",\"inventory\":");
    reveal_strlit(",\"completed_quests\":");
    let l1 = lit_name();
    let l2 = lit_location();
    let l3 = lit_inventory();
    let l4 = lit_quests();
    assert(l1.len() == 9);
    assert(l2.len() == 21);
    assert(l3.len() == 13);
    assert(l4.len() == 20);
    let en = esc(p.name);
    let el = esc(p.current_location);
    let ai = enc_arr(p.inventory);
    let aq = enc_arr(p.completed_quests);
    let s = enc_player(p);
    let tail5 = aq + seq!['}'];
    let tail4 = l4 + tail5;
    let rest3 = ai + tail4;
    let rest2pre = l3 + rest3;
    let rest2 = el + seq!['"'] + rest2pre;
    let rest1pre = l2 + rest2;
    let rest1 = en + seq!['"'] + rest1pre;
    assert(s =~= l1 + rest1);

    // the opening literal
    assert(s.subrange(0, l1.len() as int) =~= l1);
    assert(prefix_at(s, 0, l1));

    // the name
    assert(s.skip(l1.len() as int) =~= en + seq!['"'] + rest1pre);
    lemma_parse_str_enc(p.name, rest1pre);
    assert(parse_str(s.skip(l1.len() as int)) == Some((p.name, (en.len() + 1) as nat)));
    let pos1 = (l1.len() + en.len() + 1) as int;

    // the literal before the location
    assert(s.subrange(pos1, pos1 + l2.len()) =~= l2);
    assert(prefix_at(s, pos1, l2));

    // the location
    assert(s.skip(pos1 + l2.len()) =~= el + seq!['"'] + rest2pre);
    lemma_parse_str_enc(p.current_location, rest2pre);
    assert(parse_str(s.skip(pos1 + l2.len())) == Some((p.current_location, (el.len() + 1) as nat)));
    let pos2 = pos1 + l2.len() + el.len() + 1;

    // the literal before the inventory
    assert(s.subrange(pos2, pos2 + l3.len()) =~= l3);
    assert(prefix_at(s, pos2, l3));

    // the inventory array
    assert(s.skip(pos2 + l3.len()) =~= ai + tail4);
    lemma_parse_arr_enc(p.inventory, tail4);
    assert(parse_arr(s.skip(pos2 + l3.len())) == Some((p.inventory, ai.len() as nat)));
    let pos3 = pos2 + l3.len() + ai.len();

    // the literal before the completed quests
    assert(s.subrange(pos3, pos3 + l4.len()) =~= l4);
    assert(prefix_at(s, pos3, l4));

    // the completed-quests array
    let rest4 = seq!['}'];
    assert(s.skip(pos3 + l4.len()) =~= aq + rest4);
    lemma_parse_arr_enc(p.completed_quests, rest4);
    assert(parse_arr(s.skip(pos3 + l4.len())) == Some((p.completed_quests, aq.len() as nat)));
    let pos4 = pos3 + l4.len() + aq.len();

    // the closing brace ends the document
    assert(s.len() == pos4 + 1);
    assert(s[pos4] == '}');
    assert(parse_player(s) == Some(
        PlayerView {
            name: p.name,
            current_location: p.current_location,
            inventory: p.inventory,
            completed_quests: p.completed_quests,
        },
    ));
    assert(PlayerView {
        name: p.name,
        current_location: p.current_location,
        inventory: p.inventory,
        completed_quests: p.completed_quests,
    } == p);
}

/// A quoted string's reading consumes at least the closing quote and at
/// most the whole input.
pub proof fn lemma_parse_str_len(s: Seq<char>)
    requires
        parse_str(s) is Some,
    ensures
        1 <= (parse_str(s)->0).1 <= s.len(),
    decreases s.len(),
{
    if s[0] == '"' {
    } else if s[0] == '\\' {
        lemma_parse_str_len(s.skip(2));
    } else {
        lemma_parse_str_len(s.skip(1));
    }
}

/// The other direction of the string round trip: whatever content a quoted
/// string was read out of, writing that content back gives exactly the
/// characters that were consumed.
pub proof fn lemma_parse_str_canonical(s: Seq<char>)
    requires
        parse_str(s) is Some,
    ensures
        esc((parse_str(s)->0).0) + seq!['"'] == s.subrange(0, (parse_str(s)->0).1 as int),
    decreases s.len(),
{
    let c = (parse_str(s)->0).0;
    let n = (parse_str(s)->0).1 as int;
    lemma_parse_str_len(s);
    if s[0] == '"' {
        assert(c == Seq::<char>::empty());
        assert(esc(c) + seq!['"'] =~= s.subrange(0, 1));
    } else if s[0] == '\\' {
        let r = parse_str(s.skip(2))->0;
        lemma_parse_str_len(s.skip(2));
        lemma_parse_str_canonical(s.skip(2));
        assert(esc(r.0) + seq!['"'] == s.skip(2).subrange(0, r.1 as int));
        assert(c == seq![s[1]] + r.0);
        assert(c[0] == s[1]);
        assert(c.skip(1) =~= r.0);
        assert(esc(c) == esc_char(s[1]) + esc(r.0));
        assert(esc_char(s[1]) == seq!['\\', s[1]]);
        assert(s.skip(2).subrange(0, r.1 as int) =~= s.subrange(2, 2 + r.1 as int));
        assert(esc(c) + seq!['"'] =~= seq!['\\', s[1]] + (esc(r.0) + seq!['"']));
        assert(seq!['\\', s[1]] + s.subrange(2, 2 + r.1 as int) =~= s.subrange(0, n));
    } else {
        let r = parse_str(s.skip(1))->0;
        lemma_parse_str_len(s.skip(1));
        lemma_parse_str_canonical(s.skip(1));
        assert(esc(r.0) + seq!['"'] == s.skip(1).subrange(0, r.1 as int));
        assert(c == seq![s[0]] + r.0);
        assert(c[0] == s[0]);
        assert(c.skip(1) =~= r.0);
        assert(esc(c) == esc_char(s[0]) + esc(r.0));
        assert(esc_char(s[0]) == seq![s[0]]);
        assert(s.skip(1).subrange(0, r.1 as int) =~= s.subrange(1, 1 + r.1 as int));
        assert(esc(c) + seq!['"'] =~= seq![s[0]] + (esc(r.0) + seq!['"']));
        assert(seq![s[0]] + s.subrange(1, 1 + r.1 as int) =~= s.subrange(0, n));
    }
}

/// An array-items reading takes at least one element and at most the whole
/// input.
pub proof fn lemma_parse_items_len(s: Seq<char>)
    requires
        parse_items(s) is Some,
    ensures
        1 <= (parse_items(s)->0).0.len(),
        1 <= (parse_items(s)->0).1 <= s.len(),
    decreases s.len(),
{
    let r = parse_str(s.skip(1))->0;
    lemma_parse_str_len(s.skip(1));
    let p = (r.1 + 1) as int;
    if p < s.len() && s[p] == ']' {
    } else {
        lemma_parse_items_len(s.skip(p + 1));
    }
}

/// The other direction for array items: whatever elements were read,
/// writing them back gives exactly the characters consumed, the closing
/// bracket included.
pub proof fn lemma_parse_items_canonical(s: Seq<char>)
    requires
        parse_items(s) is Some,
    ensures
        enc_items((parse_items(s)->0).0) + seq![']'] == s.subrange(
            0,
            (parse_items(s)->0).1 as int,
        ),
    decreases s.len(),
{
    let v = (parse_items(s)->0).0;
    let n = (parse_items(s)->0).1 as int;
    let r = parse_str(s.skip(1))->0;
    let c = r.0;
    let m = r.1 as int;
    lemma_parse_str_len(s.skip(1));
    lemma_parse_str_canonical(s.skip(1));
    assert(esc(c) + seq!['"'] == s.skip(1).subrange(0, m));
    assert(s.skip(1).subrange(0, m) =~= s.subrange(1, 1 + m));
    let p = m + 1;
    if p < s.len() && s[p] == ']' {
        assert(v == seq![c]);
        assert(v.len() == 1);
        assert(enc_items(v) == seq!['"'] + esc(c) + seq!['"']);
        assert(enc_items(v) + seq![']'] =~= seq![s[0]] + (esc(c) + seq!['"']) + seq![s[p]]);
        assert(seq![s[0]] + s.subrange(1, 1 + m) + seq![s[p]] =~= s.subrange(0, n));
    } else {
        assert(s[p] == ',');
        let r2 = parse_items(s.skip(p + 1))->0;
        lemma_parse_items_len(s.skip(p + 1));
        lemma_parse_items_canonical(s.skip(p + 1));
        let n2 = r2.1 as int;
        assert(enc_items(r2.0) + seq![']'] == s.skip(p + 1).subrange(0, n2));
        assert(s.skip(p + 1).subrange(0, n2) =~= s.subrange(p + 1, p + 1 + n2));
        assert(v == seq![c] + r2.0);
        assert(v.len() >= 2);
        assert(v[0] == c);
        assert(v.skip(1) =~= r2.0);
        assert(enc_items(v) == seq!['"'] + esc(v[0]) + seq!['"'] + seq![','] + enc_items(r2.0));
        assert(enc_items(v) + seq![']'] =~= seq![s[0]] + (esc(c) + seq!['"']) + seq![s[p]]
            + (enc_items(r2.0) + seq![']']));
        assert(seq![s[0]] + s.subrange(1, 1 + m) + seq![s[p]] + s.subrange(p + 1, p + 1 + n2)
            =~= s.subrange(0, n));
    }
}

/// The other direction for arrays: whatever strings were read, writing them
/// back gives exactly the characters consumed.
pub proof fn lemma_parse_arr_canonical(s: Seq<char>)
    requires
        parse_arr(s) is Some,
    ensures
        enc_arr((parse_arr(s)->0).0) == s.subrange(0, (parse_arr(s)->0).1 as int),
        1 <= (parse_arr(s)->0).1 <= s.len(),
{
    let v = (parse_arr(s)->0).0;
    let n = (parse_arr(s)->0).1 as int;
    if s.len() >= 2 && s[0] == '[' && s[1] == ']' {
        assert(v.len() == 0);
        assert(enc_arr(v) == seq!['[', ']']);
        assert(enc_arr(v) =~= s.subrange(0, 2));
    } else {
        let r = parse_items(s.skip(1))->0;
        lemma_parse_items_len(s.skip(1));
        lemma_parse_items_canonical(s.skip(1));
        let m = r.1 as int;
        assert(enc_items(r.0) + seq![']'] == s.skip(1).subrange(0, m));
        assert(s.skip(1).subrange(0, m) =~= s.subrange(1, 1 + m));
        assert(v == r.0);
        assert(v.len() >= 1);
        assert(enc_arr(v) == seq!['['] + enc_items(v) + seq![']']);
        assert(enc_arr(v) =~= seq![s[0]] + (enc_items(v) + seq![']']));
        assert(seq![s[0]] + s.subrange(1, 1 + m) =~= s.subrange(0, n));
    }
}

/// The other direction of the document round trip: every document the
/// parser accepts re-encodes to exactly itself, so a well-formed save file
/// is the encoding of the one player it describes.
#[verifier::rlimit(100)]
pub proof fn lemma_player_canonical(s: Seq<char>)
    requires
        parse_player(s) is Some,
    ensures
        enc_player(parse_player(s)->0) == s,
{
    reveal_strlit("{\"name\":\"");
    reveal_strlit(",\"current_location\":\"");
    reveal_strlit(",\"inventory\":");
    reveal_strlit(",\"completed_quests\":");
    let pv = parse_player(s)->0;
    let l1 = lit_name();
    let l2 = lit_location();
    let l3 = lit_inventory();
    let l4 = lit_quests();
    assert(l1.len() == 9);
    assert(l2.len() == 21);
    assert(l3.len() == 13);
    assert(l4.len() == 20);

    assert(s.subrange(0, 9) == l1);
    let r1 = parse_str(s.skip(9))->0;
    lemma_parse_str_len(s.skip(9));
    lemma_parse_str_canonical(s.skip(9));
    let n1 = r1.1 as int;
    let pos1 = 9 + n1;
    assert(s.skip(9).subrange(0, n1) =~= s.subrange(9, pos1));
    assert(esc(r1.0) + seq!['"'] == s.subrange(9, pos1));

    assert(s.subrange(pos1, pos1 + 21) == l2);
    let r2 = parse_str(s.skip(pos1 + 21))->0;
    lemma_parse_str_len(s.skip(pos1 + 21));
    lemma_parse_str_canonical(s.skip(pos1 + 21));
    let n2 = r2.1 as int;
    let pos2 = pos1 + 21 + n2;
    assert(s.skip(pos1 + 21).subrange(0, n2) =~= s.subrange(pos1 + 21, pos2));
    assert(esc(r2.0) + seq!['"'] == s.subrange(pos1 + 21, pos2));

    assert(s.subrange(pos2, pos2 + 13) == l3);
    let r3 = parse_arr(s.skip(pos2 + 13))->0;
    lemma_parse_arr_canonical(s.skip(pos2 + 13));
    let n3 = r3.1 as int;
    let pos3 = pos2 + 13 + n3;
    assert(s.skip(pos2 + 13).subrange(0, n3) =~= s.subrange(pos2 + 13, pos3));
    assert(enc_arr(r3.0) == s.subrange(pos2 + 13, pos3));

    assert(s.subrange(pos3, pos3 + 20) == l4);
    let r4 = parse_arr(s.skip(pos3 + 20))->0;
    lemma_parse_arr_canonical(s.skip(pos3 + 20));
    let n4 = r4.1 as int;
    let pos4 = pos3 + 20 + n4;
    assert(s.skip(pos3 + 20).subrange(0, n4) =~= s.subrange(pos3 + 20, pos4));
    assert(enc_arr(r4.0) == s.subrange(pos3 + 20, pos4));

    assert(pos4 + 1 == s.len());
    assert(s[pos4] == '}');
    assert(pv.name == r1.0);
    assert(pv.current_location == r2.0);
    assert(pv.inventory == r3.0);
    assert(pv.completed_quests == r4.0);

    // split the two quoted strings into body and closing quote
    assert(esc(r1.0).len() + 1 == n1);
    assert(esc(r1.0) =~= s.subrange(9, pos1 - 1));
    assert((esc(r1.0) + seq!['"'])[n1 - 1] == '"');
    assert(s.subrange(9, pos1)[n1 - 1] == s[pos1 - 1]);
    assert(seq!['"'] =~= s.subrange(pos1 - 1, pos1));
    assert(esc(r2.0).len() + 1 == n2);
    assert(esc(r2.0) =~= s.subrange(pos1 + 21, pos2 - 1));
    assert((esc(r2.0) + seq!['"'])[n2 - 1] == '"');
    assert(s.subrange(pos1 + 21, pos2)[n2 - 1] == s[pos2 - 1]);
    assert(seq!['"'] =~= s.subrange(pos2 - 1, pos2));
    assert(seq!['}'] =~= s.subrange(pos4, pos4 + 1));

    // stitch the document back together, one component at a time
    lemma_concat_next(s, l1, 9, pos1 - 1);
    lemma_concat_next(s, l1 + esc(r1.0), pos1 - 1, pos1);
    lemma_concat_next(s, l1 + esc(r1.0) + seq!['"'], pos1, pos1 + 21);
    lemma_concat_next(s, l1 + esc(r1.0) + seq!['"'] + l2, pos1 + 21, pos2 - 1);
    lemma_concat_next(s, l1 + esc(r1.0) + seq!['"'] + l2 + esc(r2.0), pos2 - 1, pos2);
    lemma_concat_next(s, l1 + esc(r1.0) + seq!['"'] + l2 + esc(r2.0) + seq!['"'], pos2, pos2 + 13);
    lemma_concat_next(
        s,
        l1 + esc(r1.0) + seq!['"'] + l2 + esc(r2.0) + seq!['"'] + l3,
        pos2 + 13,
        pos3,
    );
    lemma_concat_next(
        s,
        l1 + esc(r1.0) + seq!['"'] + l2 + esc(r2.0) + seq!['"'] + l3 + enc_arr(r3.0),
        pos3,
        pos3 + 20,
    );
    lemma_concat_next(
        s,
        l1 + esc(r1.0) + seq!['"'] + l2 + esc(r2.0) + seq!['"'] + l3 + enc_arr(r3.0) + l4,
        pos3 + 20,
        pos4,
    );
    lemma_concat_next(
        s,
        l1 + esc(r1.0) + seq!['"'] + l2 + esc(r2.0) + seq!['"'] + l3 + enc_arr(r3.0) + l4
            + enc_arr(r4.0),
        pos4,
        pos4 + 1,
    );
    assert(s.subrange(0, pos4 + 1) =~= s);
}

/// A prefix of `s` grows by the next stretch of `s`.
proof fn lemma_concat_next(s: Seq<char>, a: Seq<char>, i: int, j: int)
    requires
        0 <= i <= j <= s.len(),
        a == s.subrange(0, i),
    ensures
        a + s.subrange(i, j) == s.subrange(0, j),
{
    assert(a + s.subrange(i, j) =~= s.subrange(0, j));
}

proof fn lemma_esc_snoc(t: Seq<char>, c: char)
    ensures
        esc(t.push(c)) == esc(t) + esc_char(c),
    decreases t.len(),
{
    let s = t.push(c);
    if t.len() == 0 {
        assert(s[0] == c);
        assert(s.skip(1) =~= Seq::<char>::empty());
        assert(esc(s) == esc_char(c) + esc(Seq::<char>::empty()));
        assert(esc_char(c) + Seq::<char>::empty() =~= esc_char(c));
        assert(esc(t) + esc_char(c) =~= esc_char(c));
    } else {
        assert(s[0] == t[0]);
        assert(s.skip(1) =~= t.skip(1).push(c));
        lemma_esc_snoc(t.skip(1), c);
        assert(esc(s) == esc_char(t[0]) + (esc(t.skip(1)) + esc_char(c)));
        assert(esc_char(t[0]) + (esc(t.skip(1)) + esc_char(c)) =~= (esc_char(t[0]) + esc(
            t.skip(1),
        )) + esc_char(c));
        assert(esc(t) == esc_char(t[0]) + esc(t.skip(1)));
    }
}

/// Appends the escaped form of `s`, quotes not included.
pub(crate) fn encode_string_into(out: &mut String, s: &str)
    ensures
        final(out)@ == old(out)@ + esc(s@),
{
    let len = s.unicode_len();
    proof {
        assert(s@.subrange(0, 0int) =~= Seq::<char>::empty());
        assert(old(out)@ + esc(s@.subrange(0, 0int)) =~= old(out)@);
    }
    for i in 0..len
        invariant
            len == s@.len(),
            out@ == old(out)@ + esc(s@.subrange(0, i as int)),
    {
        let c = s.get_char(i);
        proof {
            reveal_strlit("\\");
            assert("\\"@ =~= seq!['\\']);
            assert(s@.subrange(0, i + 1) =~= s@.subrange(0, i as int).push(s@[i as int]));
            lemma_esc_snoc(s@.subrange(0, i as int), s@[i as int]);
            assert(s@.subrange(i as int, i + 1) =~= seq![s@[i as int]]);
        }
        if c == '"' || c == '\\' {
            out.append("\\");
        }
        let piece = s.substring_char(i, i + 1);
        out.append(piece);
        proof {
            assert(out@ =~= old(out)@ + esc(s@.subrange(0, i + 1)));
        }
    }
    proof {
        assert(s@.subrange(0, len as int) =~= s@);
    }
}

proof fn lemma_enc_items_snoc(w: Seq<Seq<char>>, x: Seq<char>)
    requires
        w.len() >= 1,
    ensures
        enc_items(w.push(x)) == enc_items(w) + seq![','] + (seq!['"'] + esc(x) + seq!['"']),
    decreases w.len(),
{
    let s = w.push(x);
    let q = seq!['"'] + esc(x) + seq!['"'];
    if w.len() == 1 {
        assert(s[0] == w[0]);
        assert(s.skip(1) =~= seq![x]);
        assert(enc_items(seq![x]) == seq!['"'] + esc(x) + seq!['"']);
        assert(enc_items(s) == seq!['"'] + esc(w[0]) + seq!['"'] + seq![','] + q);
        assert(enc_items(w) == seq!['"'] + esc(w[0]) + seq!['"']);
    } else {
        assert(s[0] == w[0]);
        assert(s.skip(1) =~= w.skip(1).push(x));
        lemma_enc_items_snoc(w.skip(1), x);
        assert(enc_items(s) == seq!['"'] + esc(w[0]) + seq!['"'] + seq![','] + (enc_items(w.skip(1))
            + seq![','] + q));
        assert(seq!['"'] + esc(w[0]) + seq!['"'] + seq![','] + (enc_items(w.skip(1)) + seq![',']
            + q) =~= (seq!['"'] + esc(w[0]) + seq!['"'] + seq![','] + enc_items(w.skip(1)))
            + seq![','] + q);
        assert(enc_items(w) == seq!['"'] + esc(w[0]) + seq!['"'] + seq![','] + enc_items(
            w.skip(1),
        ));
    }
}

/// Appends the array form of the strings.
fn encode_arr_into(out: &mut String, v: &Vec<String>)
    ensures
        final(out)@ == old(out)@ + enc_arr(v.deep_view()),
{
    let ghost dv = v.deep_view();
    proof {
        reveal_strlit("[");
        reveal_strlit("]");
        reveal_strlit("\"");
        reveal_strlit(",");
        assert("["@ =~= seq!['[']);
        assert("]"@ =~= seq![']']);
        assert("\""@ =~= seq!['"']);
        assert(","@ =~= seq![',']);
    }
    let n = v.len();
    proof {
        assert(dv.len() == n);
    }
    out.append("[");
    if n == 0 {
        out.append("]");
        proof {
            assert(enc_arr(dv) == seq!['[', ']']);
            assert(out@ =~= old(out)@ + enc_arr(dv));
        }
        return ;
    }
    out.append("\"");
    encode_string_into(out, v[0].as_str());
    out.append("\"");
    proof {
        assert(dv[0] == v@[0]@);
        assert(dv.subrange(0, 1int) =~= seq![dv[0]]);
        assert(enc_items(dv.subrange(0, 1int)) == seq!['"'] + esc(dv[0]) + seq!['"']);
        assert(out@ =~= old(out)@ + seq!['['] + enc_items(dv.subrange(0, 1int)));
    }
    for i in 1..n
        invariant
            n == v.len(),
            dv == v.deep_view(),
            n == dv.len(),
            out@ == old(out)@ + seq!['['] + enc_items(dv.subrange(0, i as int)),
    {
        proof {
            reveal_strlit("\"");
            reveal_strlit(",");
            assert("\""@ =~= seq!['"']);
            assert(","@ =~= seq![',']);
            assert(dv[i as int] == v@[i as int]@);
            assert(dv.subrange(0, i + 1) =~= dv.subrange(0, i as int).push(dv[i as int]));
            lemma_enc_items_snoc(dv.subrange(0, i as int), dv[i as int]);
        }
        out.append(",");
        out.append("\"");
        encode_string_into(out, v[i].as_str());
        out.append("\"");
        proof {
            assert(out@ =~= old(out)@ + seq!['['] + enc_items(dv.subrange(0, i + 1)));
        }
    }
    proof {
        assert(dv.subrange(0, n as int) =~= dv);
    }
    out.append("]");
    proof {
        assert(enc_arr(dv) == seq!['['] + enc_items(dv) + seq![']']);
        assert(out@ =~= old(out)@ + enc_arr(dv));
    }
}

/// Writes the save document that stands for `p`.
pub fn encode_player(p: &Player) -> (s: String)
    ensures
        s@ == enc_player(p@),
{
    let mut out: String = "{\"name\":\"".to_owned();
    encode_string_into(&mut out, p.name.as_str());
    out.append("\"");
    out.append(",\"current_location\":\"");
    encode_string_into(&mut out, p.current_location.as_str());
    out.append("\"");
    out.append(",\"inventory\":");
    encode_arr_into(&mut out, &p.inventory);
    out.append(",\"completed_quests\":");
    encode_arr_into(&mut out, &p.completed_quests);
    out.append("}");
    proof {
        reveal_strlit("\"");
        reveal_strlit("}");
        assert("\""@ =~= seq!['"']);
        assert("}"@ =~= seq!['}']);
        assert(out@ =~= enc_player(p@));
    }
    out
}

/// Does `lit` stand in `doc` at position `pos`?
pub(crate) fn match_at(doc: &str, pos: usize, lit: &str) -> (b: bool)
    ensures
        b == prefix_at(doc@, pos as int, lit@),
{
    let dl = doc.unicode_len();
    let ll = lit.unicode_len();
    if ll > dl || pos > dl - ll {
        return false;
    }
    for k in 0..ll
        invariant
            dl == doc@.len(),
            ll == lit@.len(),
            pos + ll <= dl,
            forall|j: int| 0 <= j < k ==> doc@[pos + j] == lit@[j],
    {
        if doc.get_char(pos + k) != lit.get_char(k) {
            proof {
                assert(!prefix_at(doc@, pos as int, lit@)) by {
                    if prefix_at(doc@, pos as int, lit@) {
                        let kk = k as int;
                        assert(doc@.subrange(pos as int, pos + lit@.len())[kk] == lit@[kk]);
                    }
                }
            }
            return false;
        }
    }
    proof {
        assert(doc@.subrange(pos as int, pos + lit@.len()) =~= lit@);
    }
    true
}

/// Reads a quoted string's body out of `doc`: `start` is the position right
/// after the opening quote. Yields the content with its escapes undone, and
/// the count of characters consumed, the closing quote included.
pub(crate) fn parse_string_at(doc: &str, start: usize) -> (r: Option<(String, usize)>)
    requires
        start <= doc@.len(),
    ensures
        match r {
            Some(cn) => {
                &&& parse_str(doc@.skip(start as int)) == Some((cn.0@, cn.1 as nat))
                &&& start + cn.1 <= doc@.len()
            },
            None => parse_str(doc@.skip(start as int)) is None,
        },
{
    broadcast use vstd::seq_lib::group_seq_properties;

    let len = doc.unicode_len();
    let mut j: usize = start;
    let mut content: String = String::new();
    proof {
        assert(forall|t: Seq<char>| Seq::<char>::empty() + t =~= t);
    }
    loop
        invariant
            start <= j <= len,
            len == doc@.len(),
            ({
                let full = parse_str(doc@.skip(start as int));
                let rem = parse_str(doc@.skip(j as int));
                &&& (rem is Some ==> full == Some(
                    (content@ + (rem->0).0, (j - start + (rem->0).1) as nat),
                ))
                &&& (rem is None ==> full is None)
            }),
        decreases len - j,
    {
        if j >= len {
            proof {
                assert(doc@.skip(j as int) =~= Seq::<char>::empty());
            }
            return None;
        }
        let ghost s_j = doc@.skip(j as int);
        proof {
            assert(s_j.len() == len - j);
            assert(s_j[0] == doc@[j as int]);
        }
        let c = doc.get_char(j);
        if c == '"' {
            proof {
                assert(parse_str(s_j) == Some((Seq::<char>::empty(), 1nat)));
                assert(content@ + Seq::<char>::empty() =~= content@);
            }
            return Some((content, j + 1 - start));
        }
        if c == '\\' {
            if j + 1 >= len {
                proof {
                    assert(s_j.len() == 1);
                    assert(parse_str(s_j) is None);
                }
                return None;
            }
            let c2 = doc.get_char(j + 1);
            proof {
                assert(s_j[1] == doc@[j + 1]);
            }
            if c2 == '"' || c2 == '\\' {
                let ghost c_old = content@;
                proof {
                    assert(s_j.skip(2) =~= doc@.skip(j + 2));
                    let r2 = parse_str(doc@.skip(j + 2));
                    if r2 is Some {
                        assert(parse_str(s_j) == Some(
                            (seq![s_j[1]] + (r2->0).0, ((r2->0).1 + 2) as nat),
                        ));
                        assert((c_old + seq![c2]) + (r2->0).0 =~= c_old + (seq![c2] + (r2->0).0));
                    } else {
                        assert(parse_str(s_j) is None);
                    }
                    assert(doc@.subrange(j + 1, j + 2) =~= seq![doc@[j + 1]]);
                }
                let piece = doc.substring_char(j + 1, j + 2);
                content.append(piece);
                j = j + 2;
            } else {
                proof {
                    assert(parse_str(s_j) is None);
                }
                return None;
            }
        } else {
            let ghost c_old = content@;
            proof {
                assert(s_j.skip(1) =~= doc@.skip(j + 1));
                let r2 = parse_str(doc@.skip(j + 1));
                if r2 is Some {
                    assert(parse_str(s_j) == Some((seq![s_j[0]] + (r2->0).0, ((r2->0).1 + 1) as nat)));
                    assert((c_old + seq![c]) + (r2->0).0 =~= c_old + (seq![c] + (r2->0).0));
                } else {
                    assert(parse_str(s_j) is None);
                }
                assert(doc@.subrange(j as int, j + 1) =~= seq![doc@[j as int]]);
            }
            let piece = doc.substring_char(j, j + 1);
            content.append(piece);
            j = j + 1;
        }
    }
}

/// Reads an array of strings out of `doc`: `start` is the position of the
/// `[`. Yields the strings and the count of characters consumed, the closing
/// `]` included.
pub(crate) fn parse_arr_at(doc: &str, start: usize) -> (r: Option<(Vec<String>, usize)>)
    requires
        start <= doc@.len(),
    ensures
        match r {
            Some(vn) => {
                &&& parse_arr(doc@.skip(start as int)) == Some((vn.0.deep_view(), vn.1 as nat))
                &&& start + vn.1 <= doc@.len()
            },
            None => parse_arr(doc@.skip(start as int)) is None,
        },
{
    let len = doc.unicode_len();
    let ghost s0 = doc@.skip(start as int);
    proof {
        assert(s0.len() == len - start);
    }
    if start >= len {
        return None;
    }
    proof {
        assert(s0[0] == doc@[start as int]);
    }
    if doc.get_char(start) != '[' {
        return None;
    }
    if start + 1 < len && doc.get_char(start + 1) == ']' {
        let items: Vec<String> = Vec::new();
        proof {
            assert(s0[1] == doc@[start + 1]);
            assert(items.deep_view() =~= Seq::<Seq<char>>::empty());
        }
        return Some((items, 2));
    }
    let mut items: Vec<String> = Vec::new();
    let mut pos: usize = start + 1;
    proof {
        assert(forall|t: Seq<Seq<char>>| Seq::<Seq<char>>::empty() + t =~= t);
        assert(items.deep_view() =~= Seq::<Seq<char>>::empty());
    }
    loop
        invariant
            start < len,
            start + 1 <= pos <= len,
            len == doc@.len(),
            doc@[start as int] == '[',
            start + 1 < len ==> !(doc@[start + 1] == ']'),
            ({
                let full = parse_items(doc@.skip(start + 1));
                let rem = parse_items(doc@.skip(pos as int));
                &&& (rem is Some ==> full == Some(
                    (items.deep_view() + (rem->0).0, (pos - start - 1 + (rem->0).1) as nat),
                ))
                &&& (rem is None ==> full is None)
            }),
        decreases len - pos,
    {
        let ghost s0 = doc@.skip(start as int);
        proof {
            assert(s0.len() == len - start);
            assert(s0[0] == doc@[start as int]);
            if s0.len() >= 2 {
                assert(s0[1] == doc@[start + 1]);
            }
            assert(s0.skip(1) =~= doc@.skip(start + 1));
            // the whole-array reading comes down to reading the items
            assert(parse_arr(s0) == (match parse_items(doc@.skip(start + 1)) {
                None => None::<(Seq<Seq<char>>, nat)>,
                Some(r) => Some((r.0, (r.1 + 1) as nat)),
            }));
        }
        if pos >= len {
            proof {
                assert(doc@.skip(pos as int) =~= Seq::<char>::empty());
                assert(parse_items(doc@.skip(pos as int)) is None);
            }
            return None;
        }
        let ghost s_p = doc@.skip(pos as int);
        proof {
            assert(s_p.len() == len - pos);
            assert(s_p[0] == doc@[pos as int]);
            assert(s_p.skip(1) =~= doc@.skip(pos + 1));
        }
        if doc.get_char(pos) != '"' {
            proof {
                assert(parse_items(s_p) is None);
            }
            return None;
        }
        match parse_string_at(doc, pos + 1) {
            None => {
                proof {
                    assert(parse_items(s_p) is None);
                }
                return None;
            },
            Some((content, n)) => {
                let sep = pos + 1 + n;
                proof {
                    assert(parse_str(s_p.skip(1)) == Some((content@, n as nat)));
                }
                if sep >= len {
                    proof {
                        assert(parse_items(s_p) is None);
                    }
                    return None;
                }
                let sc = doc.get_char(sep);
                proof {
                    assert(s_p[(n + 1) as int] == doc@[sep as int]);
                }
                if sc == ']' {
                    let ghost items_old = items.deep_view();
                    items.push(content);
                    proof {
                        assert(items.deep_view() =~= items_old.push(content@));
                        assert(parse_items(s_p) == Some((seq![content@], (n + 2) as nat)));
                        assert(items_old + seq![content@] =~= items_old.push(content@));
                    }
                    return Some((items, sep + 1 - start));
                } else if sc == ',' {
                    let ghost items_old = items.deep_view();
                    proof {
                        assert(s_p.skip(n + 2) =~= doc@.skip(sep + 1));
                        let r2 = parse_items(doc@.skip(sep + 1));
                        if r2 is Some {
                            assert(parse_items(s_p) == Some(
                                (seq![content@] + (r2->0).0, (n + 2 + (r2->0).1) as nat),
                            ));
                            assert((items_old.push(content@)) + (r2->0).0 =~= items_old + (seq![
                                content@,
                            ] + (r2->0).0));
                        } else {
                            assert(parse_items(s_p) is None);
                        }
                    }
                    items.push(content);
                    proof {
                        assert(items.deep_view() =~= items_old.push(content@));
                    }
                    pos = sep + 1;
                } else {
                    proof {
                        assert(parse_items(s_p) is None);
                    }
                    return None;
                }
            },
        }
    }
}

/// Reads a save document back into a player; `None` is the format-error
/// outcome, and comes exactly on the documents the document grammar refuses.
pub fn decode_player(doc: &str) -> (r: Option<Player>)
    ensures
        match r {
            Some(p) => parse_player(doc@) == Some(p@),
            None => parse_player(doc@) is None,
        },
{
    let len = doc.unicode_len();
    let l1 = "{\"name\":\"";
    let l2 = ",\"current_location\":\"";
    let l3 = ",\"inventory\":";
    let l4 = ",\"completed_quests\":";
    if !match_at(doc, 0, l1) {
        return None;
    }
    let p0 = l1.unicode_len();
    let (name, n1) = match parse_string_at(doc, p0) {
        None => {
            return None;
        },
        Some(r) => r,
    };
    let pos1 = p0 + n1;
    if !match_at(doc, pos1, l2) {
        return None;
    }
    let (location, n2) = match parse_string_at(doc, pos1 + l2.unicode_len()) {
        None => {
            return None;
        },
        Some(r) => r,
    };
    let pos2 = pos1 + l2.unicode_len() + n2;
    if !match_at(doc, pos2, l3) {
        return None;
    }
    let (inventory, n3) = match parse_arr_at(doc, pos2 + l3.unicode_len()) {
        None => {
            return None;
        },
        Some(r) => r,
    };
    let pos3 = pos2 + l3.unicode_len() + n3;
    if !match_at(doc, pos3, l4) {
        return None;
    }
    let (quests, n4) = match parse_arr_at(doc, pos3 + l4.unicode_len()) {
        None => {
            return None;
        },
        Some(r) => r,
    };
    let pos4 = pos3 + l4.unicode_len() + n4;
    if pos4 >= len {
        return None;
    }
    if !(pos4 + 1 == len && doc.get_char(pos4) == '}') {
        return None;
    }
    let p = Player {
        name,
        current_location: location,
        inventory,
        completed_quests: quests,
    };
    proof {
        assert(parse_player(doc@) == Some(p@));
    }
    Some(p)
}

} // verus!
