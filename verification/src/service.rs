//! The state service's data: a flat player-name/location record kept in a
//! single-writer cell, read as a snapshot and replaced wholesale, and a
//! document codec of the same shape as the save-document codec.
//!
//! The cell is independent of the exploration loop's player record; the two
//! only share the conceptual shape of "player name + location".

use vstd::prelude::*;
use crate::codec::{
    esc, lit_location, parse_str, parse_string_at, prefix_at, encode_string_into, match_at,
};
use vstd::string::StrSliceExecFns;
use vstd::string::StringExecFns;

verus! {

/// The record behind the service's two routes.
pub struct GameState {
    pub player_name: String,
    pub current_location: String,
}

/// Mathematical image of a [`GameState`].
pub struct GameStateView {
    pub player_name: Seq<char>,
    pub current_location: Seq<char>,
}

impl View for GameState {
    type V = GameStateView;

    open spec fn view(&self) -> GameStateView {
        GameStateView {
            player_name: self.player_name@,
            current_location: self.current_location@,
        }
    }
}

impl GameState {
    pub fn new(player_name: &str, current_location: &str) -> (g: GameState)
        ensures
            g@.player_name == player_name@,
            g@.current_location == current_location@,
    {
        GameState {
            player_name: player_name.to_owned(),
            current_location: current_location.to_owned(),
        }
    }
}

/// The shared state cell: one current record, read as a snapshot, replaced
/// atomically as a whole. Whatever lock guards the cell, its behaviour is
/// exactly these two operations.
pub struct StateCell {
    state: GameState,
}

impl View for StateCell {
    type V = GameStateView;

    closed spec fn view(&self) -> GameStateView {
        self.state@
    }
}

impl StateCell {
    pub fn new(initial: GameState) -> (c: StateCell)
        ensures
            c@ == initial@,
    {
        StateCell { state: initial }
    }

    /// A copy of the current record.
    pub fn snapshot(&self) -> (g: GameState)
        ensures
            g@ == self@,
    {
        GameState {
            player_name: self.state.player_name.clone(),
            current_location: self.state.current_location.clone(),
        }
    }

    /// Replaces the whole record; the last writer wins.
    pub fn replace(&mut self, new: GameState)
        ensures
            final(self)@ == new@,
    {
        self.state = new;
    }
}

/// Opening of the service document, up to and including the player name's
/// opening quote.
pub open spec fn lit_player_name() -> Seq<char> {
    "{\"player_name\":\""@
}

/// The document that stands for a service record.
pub open spec fn enc_game_state(g: GameStateView) -> Seq<char> {
    lit_player_name() + esc(g.player_name) + seq!['"'] + lit_location() + esc(g.current_location)
        + seq!['"'] + seq!['}']
}

/// Reads a service document; `None` is the format-error outcome.
pub open spec fn parse_game_state(s: Seq<char>) -> Option<GameStateView> {
    if !prefix_at(s, 0, lit_player_name()) {
        None
    } else {
        match parse_str(s.skip(lit_player_name().len() as int)) {
            None => None,
            Some(r1) => {
                let pos1 = lit_player_name().len() + r1.1;
                if !prefix_at(s, pos1 as int, lit_location()) {
                    None
                } else {
                    match parse_str(s.skip((pos1 + lit_location().len()) as int)) {
                        None => None,
                        Some(r2) => {
                            let pos2 = pos1 + lit_location().len() + r2.1;
                            if pos2 + 1 == s.len() && s[pos2 as int] == '}' {
                                Some(GameStateView { player_name: r1.0, current_location: r2.0 })
                            } else {
                                None
                            }
                        },
                    }
                }
            },
        }
    }
}

/// The round trip: an encoded record, read back, is exactly the record that
/// was encoded. Posting a document and reading the state back therefore
/// echoes the posted record.
#[verifier::rlimit(100)]
pub proof fn lemma_game_state_round_trip(g: GameStateView)
    ensures
        parse_game_state(enc_game_state(g)) == Some(g),
{
    reveal_strlit("{\"player_name\":\"");
    reveal_strlit(",\"current_location\":\"");
    let l1 = lit_player_name();
    let l2 = lit_location();
    assert(l1.len() == 16);
    assert(l2.len() == 21);
    let en = esc(g.player_name);
    let el = esc(g.current_location);
    let s = enc_game_state(g);
    let tail2 = seq!['}'];
    let rest2 = el + seq!['"'] + tail2;
    let rest1pre = l2 + rest2;
    let rest1 = en + seq!['"'] + rest1pre;
    assert(s =~= l1 + rest1);

    assert(s.subrange(0, l1.len() as int) =~= l1);
    assert(prefix_at(s, 0, l1));

    assert(s.skip(l1.len() as int) =~= en + seq!['"'] + rest1pre);
    crate::codec::lemma_parse_str_enc(g.player_name, rest1pre);
    assert(parse_str(s.skip(l1.len() as int)) == Some((g.player_name, (en.len() + 1) as nat)));
    let pos1 = (l1.len() + en.len() + 1) as int;

    assert(s.subrange(pos1, pos1 + l2.len()) =~= l2);
    assert(prefix_at(s, pos1, l2));

    assert(s.skip(pos1 + l2.len()) =~= el + seq!['"'] + tail2);
    crate::codec::lemma_parse_str_enc(g.current_location, tail2);
    assert(parse_str(s.skip(pos1 + l2.len())) == Some((g.current_location, (el.len() + 1) as nat)));
    let pos2 = pos1 + l2.len() + el.len() + 1;

    assert(s.len() == pos2 + 1);
    assert(s[pos2] == '}');
    assert(parse_game_state(s) == Some(
        GameStateView { player_name: g.player_name, current_location: g.current_location },
    ));
    assert(GameStateView {
        player_name: g.player_name,
        current_location: g.current_location,
    } == g);
}

/// The other direction: every document the parser accepts re-encodes to
/// exactly itself. Posting any accepted body and reading the state back
/// therefore echoes that body character for character.
#[verifier::rlimit(100)]
pub proof fn lemma_game_state_canonical(s: Seq<char>)
    requires
        parse_game_state(s) is Some,
    ensures
        enc_game_state(parse_game_state(s)->0) == s,
{
    reveal_strlit("{\"player_name\":\"");
    reveal_strlit(",\"current_location\":\"");
    let g = parse_game_state(s)->0;
    let l1 = lit_player_name();
    let l2 = lit_location();
    assert(l1.len() == 16);
    assert(l2.len() == 21);

    assert(s.subrange(0, 16) == l1);
    let r1 = parse_str(s.skip(16))->0;
    crate::codec::lemma_parse_str_len(s.skip(16));
    crate::codec::lemma_parse_str_canonical(s.skip(16));
    let n1 = r1.1 as int;
    let pos1 = 16 + n1;
    assert(esc(r1.0) + seq!['"'] == s.skip(16).subrange(0, n1));
    assert(s.skip(16).subrange(0, n1) =~= s.subrange(16, pos1));

    assert(s.subrange(pos1, pos1 + 21) == l2);
    let r2 = parse_str(s.skip(pos1 + 21))->0;
    crate::codec::lemma_parse_str_len(s.skip(pos1 + 21));
    crate::codec::lemma_parse_str_canonical(s.skip(pos1 + 21));
    let n2 = r2.1 as int;
    let pos2 = pos1 + 21 + n2;
    assert(esc(r2.0) + seq!['"'] == s.skip(pos1 + 21).subrange(0, n2));
    assert(s.skip(pos1 + 21).subrange(0, n2) =~= s.subrange(pos1 + 21, pos2));

    assert(pos2 + 1 == s.len());
    assert(s[pos2] == '}');
    assert(g.player_name == r1.0);
    assert(g.current_location == r2.0);

    assert(enc_game_state(g) =~= l1 + (esc(r1.0) + seq!['"']) + l2 + (esc(r2.0) + seq!['"'])
        + seq!['}']);
    assert(l1 + (esc(r1.0) + seq!['"']) + l2 + (esc(r2.0) + seq!['"']) + seq!['}'] =~= s.subrange(
        0,
        16,
    ) + s.subrange(16, pos1) + s.subrange(pos1, pos1 + 21) + s.subrange(pos1 + 21, pos2)
        + seq![s[pos2]]);
    assert(s.subrange(0, 16) + s.subrange(16, pos1) + s.subrange(pos1, pos1 + 21) + s.subrange(
        pos1 + 21,
        pos2,
    ) + seq![s[pos2]] =~= s);
}

/// Writes the document that stands for `g`.
pub fn encode_game_state(g: &GameState) -> (s: String)
    ensures
        s@ == enc_game_state(g@),
{
    let mut out: String = "{\"player_name\":\"".to_owned();
    encode_string_into(&mut out, g.player_name.as_str());
    out.append("\"");
    out.append(",\"current_location\":\"");
    encode_string_into(&mut out, g.current_location.as_str());
    out.append("\"");
    out.append("}");
    proof {
        reveal_strlit("\"");
        reveal_strlit("}");
        assert("\""@ =~= seq!['"']);
        assert("}"@ =~= seq!['}']);
        assert(out@ =~= enc_game_state(g@));
    }
    out
}

/// Reads a service document back into a record; `None` is the format-error
/// outcome, and comes exactly on the documents the document grammar refuses.
pub fn decode_game_state(doc: &str) -> (r: Option<GameState>)
    ensures
        match r {
            Some(g) => parse_game_state(doc@) == Some(g@),
            None => parse_game_state(doc@) is None,
        },
{
    let len = doc.unicode_len();
    let l1 = "{\"player_name\":\"";
    let l2 = ",\"current_location\":\"";
    if !match_at(doc, 0, l1) {
        return None;
    }
    let p0 = l1.unicode_len();
    let (player_name, n1) = match parse_string_at(doc, p0) {
        None => {
            return None;
        },
        Some(r) => r,
    };
    let pos1 = p0 + n1;
    if !match_at(doc, pos1, l2) {
        return None;
    }
    let (location, n2) = match parse_string_at(doc, pos1 + l2.unicode_len()) {
        None => {
            return None;
        },
        Some(r) => r,
    };
    let pos2 = pos1 + l2.unicode_len() + n2;
    if pos2 >= len {
        return None;
    }
    if !(pos2 + 1 == len && doc.get_char(pos2) == '}') {
        return None;
    }
    let g = GameState { player_name, current_location: location };
    proof {
        assert(parse_game_state(doc@) == Some(g@));
    }
    Some(g)
}

} // verus!
