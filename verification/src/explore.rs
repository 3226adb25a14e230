//! The exploration commands: parsing a line of input, moving the player
//! along an exit, and rendering the texts that describe the current
//! location and the inventory.

use vstd::prelude::*;
use vstd::string::StrSliceExecFns;
use vstd::string::StringExecFns;
use crate::player::{Player, PlayerView};
use crate::text::str_eq;
use crate::world::{ExitView, LocationView, QuestView, World, WorldEntryView, exit_lookup, world_lookup};

verus! {

/// A line of input, classified into one of the fixed commands.
#[derive(Debug)]
pub enum Command {
    Quit,
    Save,
    Load,
    Inventory,
    /// `go <direction>`, carrying the direction token.
    Go(String),
    Unknown,
}

/// Mathematical image of a [`Command`].
pub enum CommandView {
    Quit,
    Save,
    Load,
    Inventory,
    Go(Seq<char>),
    Unknown,
}

impl View for Command {
    type V = CommandView;

    open spec fn view(&self) -> CommandView {
        match self {
            Command::Quit => CommandView::Quit,
            Command::Save => CommandView::Save,
            Command::Load => CommandView::Load,
            Command::Inventory => CommandView::Inventory,
            Command::Go(d) => CommandView::Go(d@),
            Command::Unknown => CommandView::Unknown,
        }
    }
}

/// Blanks and tabs separate the direction token from the `go` keyword.
pub open spec fn is_sep(c: char) -> bool {
    c == ' ' || c == '\t'
}

/// Index of the first non-separator character at or after `j`.
pub open spec fn token_start(s: Seq<char>, j: int) -> int
    decreases s.len() - j,
{
    if j < 0 || j >= s.len() {
        j
    } else if is_sep(s[j]) {
        token_start(s, j + 1)
    } else {
        j
    }
}

/// Index of the first separator character at or after `j`.
pub open spec fn token_end(s: Seq<char>, j: int) -> int
    decreases s.len() - j,
{
    if j < 0 || j >= s.len() {
        j
    } else if !is_sep(s[j]) {
        token_end(s, j + 1)
    } else {
        j
    }
}

/// Does the line carry the `go` keyword and a blank, whatever follows?
pub open spec fn is_go_line(s: Seq<char>) -> bool {
    s.len() >= 3 && s[0] == 'g' && s[1] == 'o' && s[2] == ' '
}

/// The direction named on a `go` line: the first token after the keyword,
/// possibly empty when nothing follows the blanks.
pub open spec fn go_direction(s: Seq<char>) -> Seq<char> {
    s.subrange(token_start(s, 3), token_end(s, token_start(s, 3)))
}

/// What a line of input means. The four whole-line commands are matched
/// first; a line that opens with `go ` names a direction; anything else is
/// not understood.
pub open spec fn parse_command_spec(s: Seq<char>) -> CommandView {
    if s == "quit"@ {
        CommandView::Quit
    } else if s == "save"@ {
        CommandView::Save
    } else if s == "load"@ {
        CommandView::Load
    } else if s == "inventory"@ {
        CommandView::Inventory
    } else if is_go_line(s) {
        CommandView::Go(go_direction(s))
    } else {
        CommandView::Unknown
    }
}

/// Classifies one line of input (already trimmed and lowercased).
pub fn parse_command(line: &str) -> (c: Command)
    ensures
        c@ == parse_command_spec(line@),
{
    if str_eq(line, "quit") {
        return Command::Quit;
    }
    if str_eq(line, "save") {
        return Command::Save;
    }
    if str_eq(line, "load") {
        return Command::Load;
    }
    if str_eq(line, "inventory") {
        return Command::Inventory;
    }
    let len = line.unicode_len();
    if len >= 3 && line.get_char(0) == 'g' && line.get_char(1) == 'o' && line.get_char(2) == ' ' {
        let mut a: usize = 3;
        while a < len && (line.get_char(a) == ' ' || line.get_char(a) == '\t')
            invariant
                3 <= a <= len,
                len == line@.len(),
                token_start(line@, 3) == token_start(line@, a as int),
            decreases len - a,
        {
            proof {
                assert(token_start(line@, a as int) == token_start(line@, a + 1));
            }
            a = a + 1;
        }
        proof {
            assert(token_start(line@, a as int) == a as int);
            assert(token_start(line@, 3) == a as int);
        }
        let mut b: usize = a;
        while b < len && !(line.get_char(b) == ' ' || line.get_char(b) == '\t')
            invariant
                a <= b <= len,
                len == line@.len(),
                token_end(line@, a as int) == token_end(line@, b as int),
            decreases len - b,
        {
            proof {
                assert(token_end(line@, b as int) == token_end(line@, b + 1));
            }
            b = b + 1;
        }
        proof {
            assert(token_end(line@, b as int) == b as int);
            assert(token_end(line@, a as int) == b as int);
        }
        let dir = line.substring_char(a, b).to_owned();
        return Command::Go(dir);
    }
    Command::Unknown
}

/// What a movement attempt produced.
#[derive(Debug, PartialEq, Eq, Structural)]
pub enum MoveOutcome {
    /// The exit existed; the player stands at its destination now.
    Moved,
    /// The current location has no exit in that direction.
    NoExit,
    /// The player's current location is not on the world map at all (it can
    /// only get that way through a loaded save); nothing moves.
    UnknownLocation,
}

/// What `go` does: the player afterwards, and the outcome. Only a hit in the
/// current location's exits moves the player, and then exactly to the mapped
/// destination.
pub open spec fn go_spec(w: Seq<WorldEntryView>, p: PlayerView, dir: Seq<char>) -> (PlayerView, MoveOutcome) {
    match world_lookup(w, p.current_location) {
        None => (p, MoveOutcome::UnknownLocation),
        Some(loc) => match exit_lookup(loc.exits, dir) {
            Some(dest) => ((PlayerView { current_location: dest, ..p }), MoveOutcome::Moved),
            None => (p, MoveOutcome::NoExit),
        },
    }
}

/// Attempts to move the player along the exit labelled `dir`.
pub fn apply_go(player: &mut Player, world: &World, dir: &str) -> (o: MoveOutcome)
    ensures
        (final(player)@, o) == go_spec(world@, old(player)@, dir@),
{
    match world.lookup(player.current_location.as_str()) {
        None => MoveOutcome::UnknownLocation,
        Some(loc) => match loc.exit_to(dir) {
            Some(dest) => {
                player.current_location = dest.clone();
                MoveOutcome::Moved
            },
            None => MoveOutcome::NoExit,
        },
    }
}

/// A direction the current location does not offer moves nothing: the player
/// comes out exactly as they went in, with the "can't go" outcome.
pub proof fn lemma_go_invalid_direction(
    w: Seq<WorldEntryView>,
    p: PlayerView,
    dir: Seq<char>,
    loc: LocationView,
)
    requires
        world_lookup(w, p.current_location) == Some(loc),
        exit_lookup(loc.exits, dir) is None,
    ensures
        go_spec(w, p, dir) == (p, MoveOutcome::NoExit),
{
}

/// A direction the current location does offer moves the player to exactly
/// the mapped destination, and touches nothing else: name, inventory and
/// completed quests are kept.
pub proof fn lemma_go_valid_direction(
    w: Seq<WorldEntryView>,
    p: PlayerView,
    dir: Seq<char>,
    loc: LocationView,
    dest: Seq<char>,
)
    requires
        world_lookup(w, p.current_location) == Some(loc),
        exit_lookup(loc.exits, dir) == Some(dest),
    ensures
        go_spec(w, p, dir).0.current_location == dest,
        go_spec(w, p, dir).0.name == p.name,
        go_spec(w, p, dir).0.inventory == p.inventory,
        go_spec(w, p, dir).0.completed_quests == p.completed_quests,
        go_spec(w, p, dir).1 == MoveOutcome::Moved,
{
}

/// Each element followed by one blank, in order.
pub open spec fn join_spaced(items: Seq<Seq<char>>) -> Seq<char>
    decreases items.len(),
{
    if items.len() == 0 {
        Seq::empty()
    } else {
        items[0] + seq![' '] + join_spaced(items.skip(1))
    }
}

proof fn lemma_join_spaced_snoc(items: Seq<Seq<char>>, x: Seq<char>)
    ensures
        join_spaced(items.push(x)) == join_spaced(items) + x + seq![' '],
    decreases items.len(),
{
    let s = items.push(x);
    if items.len() == 0 {
        assert(s[0] == x);
        assert(s.skip(1) =~= Seq::<Seq<char>>::empty());
        assert(join_spaced(s) == x + seq![' '] + join_spaced(Seq::<Seq<char>>::empty()));
        assert(x + seq![' '] + Seq::<char>::empty() =~= x + seq![' ']);
        assert(join_spaced(items) + x + seq![' '] =~= x + seq![' ']);
    } else {
        assert(s[0] == items[0]);
        assert(s.skip(1) =~= items.skip(1).push(x));
        lemma_join_spaced_snoc(items.skip(1), x);
        assert(join_spaced(s) == items[0] + seq![' '] + (join_spaced(items.skip(1)) + x
            + seq![' ']));
        assert(items[0] + seq![' '] + (join_spaced(items.skip(1)) + x + seq![' ']) =~= (items[0]
            + seq![' '] + join_spaced(items.skip(1))) + x + seq![' ']);
        assert(join_spaced(items) == items[0] + seq![' '] + join_spaced(items.skip(1)));
    }
}

/// The inventory line: the items in order, or the fixed empty-inventory
/// message, each ended with a newline.
pub open spec fn inventory_text(p: PlayerView) -> Seq<char> {
    if p.inventory.len() == 0 {
        "Your inventory is empty.\n"@
    } else {
        "Inventory: "@ + join_spaced(p.inventory) + seq!['\n']
    }
}

/// Renders the inventory. Takes the player immutably: listing the inventory
/// mutates nothing, so any run of such renders with no mutation in between
/// yields the same text (see [`lemma_inventory_idempotent`] for the same
/// fact about whole loop steps).
pub fn render_inventory(player: &Player) -> (s: String)
    ensures
        s@ == inventory_text(player@),
{
    let n = player.inventory.len();
    proof {
        assert(player@.inventory.len() == n);
    }
    if n == 0 {
        return "Your inventory is empty.\n".to_owned();
    }
    let mut out: String = "Inventory: ".to_owned();
    proof {
        reveal_strlit(" ");
        reveal_strlit("\n");
        assert(" "@ =~= seq![' ']);
        assert("\n"@ =~= seq!['\n']);
        assert(player@.inventory.subrange(0, 0int) =~= Seq::<Seq<char>>::empty());
        assert(out@ =~= "Inventory: "@ + join_spaced(player@.inventory.subrange(0, 0int)));
    }
    for i in 0..n
        invariant
            n == player.inventory.len(),
            n == player@.inventory.len(),
            n > 0,
            out@ == "Inventory: "@ + join_spaced(player@.inventory.subrange(0, i as int)),
    {
        proof {
            reveal_strlit(" ");
            assert(" "@ =~= seq![' ']);
            assert(player@.inventory.subrange(0, i + 1) =~= player@.inventory.subrange(
                0,
                i as int,
            ).push(player@.inventory[i as int]));
            lemma_join_spaced_snoc(
                player@.inventory.subrange(0, i as int),
                player@.inventory[i as int],
            );
            assert(player@.inventory[i as int] == player.inventory@[i as int]@);
        }
        out.append(player.inventory[i].as_str());
        out.append(" ");
        proof {
            assert(out@ =~= "Inventory: "@ + join_spaced(player@.inventory.subrange(0, i + 1)));
        }
    }
    proof {
        assert(player@.inventory.subrange(0, n as int) =~= player@.inventory);
    }
    out.append("\n");
    proof {
        reveal_strlit("\n");
        assert("\n"@ =~= seq!['\n']);
        assert(out@ =~= inventory_text(player@));
    }
    out
}

/// Does `xs` hold `x`?
pub open spec fn contains_str(xs: Seq<Seq<char>>, x: Seq<char>) -> bool {
    exists|i: int| 0 <= i < xs.len() && xs[i] == x
}

/// Checks whether any of the strings equals `x`.
pub fn contains_string(xs: &Vec<String>, x: &str) -> (b: bool)
    ensures
        b == contains_str(xs.deep_view(), x@),
{
    let n = xs.len();
    for i in 0..n
        invariant
            n == xs.len(),
            forall|j: int| 0 <= j < i ==> xs.deep_view()[j] != x@,
    {
        if str_eq(xs[i].as_str(), x) {
            proof {
                assert(xs.deep_view()[i as int] == x@);
            }
            return true;
        }
    }
    false
}

/// The line printed for one quest: nothing when its description is among the
/// completed ones, the quest line otherwise.
pub open spec fn quest_line(q: QuestView, done: Seq<Seq<char>>) -> Seq<char> {
    if contains_str(done, q.description) {
        Seq::empty()
    } else {
        "Quest: "@ + q.description + seq!['\n']
    }
}

/// The quest lines of a location, in order.
pub open spec fn quest_lines(qs: Seq<QuestView>, done: Seq<Seq<char>>) -> Seq<char>
    decreases qs.len(),
{
    if qs.len() == 0 {
        Seq::empty()
    } else {
        quest_line(qs[0], done) + quest_lines(qs.skip(1), done)
    }
}

proof fn lemma_quest_lines_snoc(qs: Seq<QuestView>, q: QuestView, done: Seq<Seq<char>>)
    ensures
        quest_lines(qs.push(q), done) == quest_lines(qs, done) + quest_line(q, done),
    decreases qs.len(),
{
    let s = qs.push(q);
    if qs.len() == 0 {
        assert(s[0] == q);
        assert(s.skip(1) =~= Seq::<QuestView>::empty());
        assert(quest_lines(s, done) == quest_line(q, done) + quest_lines(
            Seq::<QuestView>::empty(),
            done,
        ));
        assert(quest_line(q, done) + Seq::<char>::empty() =~= quest_line(q, done));
        assert(quest_lines(qs, done) + quest_line(q, done) =~= quest_line(q, done));
    } else {
        assert(s[0] == qs[0]);
        assert(s.skip(1) =~= qs.skip(1).push(q));
        lemma_quest_lines_snoc(qs.skip(1), q, done);
        assert(quest_lines(s, done) == quest_line(qs[0], done) + (quest_lines(qs.skip(1), done)
            + quest_line(q, done)));
        assert(quest_line(qs[0], done) + (quest_lines(qs.skip(1), done) + quest_line(q, done))
            =~= (quest_line(qs[0], done) + quest_lines(qs.skip(1), done)) + quest_line(q, done));
        assert(quest_lines(qs, done) == quest_line(qs[0], done) + quest_lines(qs.skip(1), done));
    }
}

/// The direction labels of the exits, each followed by one blank.
pub open spec fn join_dirs(exits: Seq<ExitView>) -> Seq<char>
    decreases exits.len(),
{
    if exits.len() == 0 {
        Seq::empty()
    } else {
        exits[0].direction + seq![' '] + join_dirs(exits.skip(1))
    }
}

proof fn lemma_join_dirs_snoc(exits: Seq<ExitView>, e: ExitView)
    ensures
        join_dirs(exits.push(e)) == join_dirs(exits) + e.direction + seq![' '],
    decreases exits.len(),
{
    let s = exits.push(e);
    if exits.len() == 0 {
        assert(s[0] == e);
        assert(s.skip(1) =~= Seq::<ExitView>::empty());
        assert(join_dirs(s) == e.direction + seq![' '] + join_dirs(Seq::<ExitView>::empty()));
        assert(e.direction + seq![' '] + Seq::<char>::empty() =~= e.direction + seq![' ']);
        assert(join_dirs(exits) + e.direction + seq![' '] =~= e.direction + seq![' ']);
    } else {
        assert(s[0] == exits[0]);
        assert(s.skip(1) =~= exits.skip(1).push(e));
        lemma_join_dirs_snoc(exits.skip(1), e);
        assert(join_dirs(s) == exits[0].direction + seq![' '] + (join_dirs(exits.skip(1))
            + e.direction + seq![' ']));
        assert(exits[0].direction + seq![' '] + (join_dirs(exits.skip(1)) + e.direction
            + seq![' ']) =~= (exits[0].direction + seq![' '] + join_dirs(exits.skip(1)))
            + e.direction + seq![' ']);
        assert(join_dirs(exits) == exits[0].direction + seq![' '] + join_dirs(exits.skip(1)));
    }
}

/// The exits line, absent entirely when the location has no exit.
pub open spec fn exits_line(exits: Seq<ExitView>) -> Seq<char> {
    if exits.len() == 0 {
        Seq::empty()
    } else {
        "Exits: "@ + join_dirs(exits) + seq!['\n']
    }
}

/// The full text shown for a location: its name, its description, the lines
/// of its not-yet-completed quests, and its exits.
pub open spec fn location_text(loc: LocationView, p: PlayerView) -> Seq<char> {
    "Location: "@ + loc.name + seq!['\n'] + loc.description + seq!['\n'] + quest_lines(
        loc.quests,
        p.completed_quests,
    ) + exits_line(loc.exits)
}

/// Renders the player's current location, or reports that the identifier is
/// not on the world map.
pub fn render_location(player: &Player, world: &World) -> (r: Option<String>)
    ensures
        match world_lookup(world@, player@.current_location) {
            Some(loc) => r matches Some(s) && s@ == location_text(loc, player@),
            None => r is None,
        },
{
    let loc = match world.lookup(player.current_location.as_str()) {
        None => {
            return None;
        },
        Some(loc) => loc,
    };
    let mut out: String = "Location: ".to_owned();
    out.append(loc.name.as_str());
    out.append("\n");
    out.append(loc.description.as_str());
    out.append("\n");
    let ghost prefix = out@;
    let nq = loc.quests.len();
    proof {
        reveal_strlit("\n");
        assert("\n"@ =~= seq!['\n']);
        assert(loc@.quests.len() == nq);
        assert(prefix =~= "Location: "@ + loc@.name + seq!['\n'] + loc@.description + seq!['\n']);
        assert(loc@.quests.subrange(0, 0int) =~= Seq::<QuestView>::empty());
        assert(prefix + quest_lines(
            loc@.quests.subrange(0, 0int),
            player@.completed_quests,
        ) =~= prefix);
    }
    for i in 0..nq
        invariant
            nq == loc.quests.len(),
            nq == loc@.quests.len(),
            prefix == "Location: "@ + loc@.name + seq!['\n'] + loc@.description + seq!['\n'],
            out@ == prefix + quest_lines(loc@.quests.subrange(0, i as int), player@.completed_quests),
    {
        proof {
            reveal_strlit("\n");
            assert("\n"@ =~= seq!['\n']);
            assert(loc@.quests.subrange(0, i + 1) =~= loc@.quests.subrange(0, i as int).push(
                loc@.quests[i as int],
            ));
            lemma_quest_lines_snoc(
                loc@.quests.subrange(0, i as int),
                loc@.quests[i as int],
                player@.completed_quests,
            );
            assert(loc@.quests[i as int] == loc.quests@[i as int]@);
        }
        if !contains_string(&player.completed_quests, loc.quests[i].description.as_str()) {
            out.append("Quest: ");
            out.append(loc.quests[i].description.as_str());
            out.append("\n");
            proof {
                assert(quest_line(loc@.quests[i as int], player@.completed_quests)
                    == "Quest: "@ + loc@.quests[i as int].description + seq!['\n']);
            }
        } else {
            proof {
                assert(quest_line(loc@.quests[i as int], player@.completed_quests)
                    == Seq::<char>::empty());
            }
        }
        proof {
            assert(out@ =~= prefix + quest_lines(
                loc@.quests.subrange(0, i + 1),
                player@.completed_quests,
            ));
        }
    }
    proof {
        assert(loc@.quests.subrange(0, nq as int) =~= loc@.quests);
    }
    let ghost prefix2 = prefix + quest_lines(loc@.quests, player@.completed_quests);
    let ne = loc.exits.len();
    proof {
        assert(loc@.exits.len() == ne);
    }
    if ne > 0 {
        out.append("Exits: ");
        proof {
            reveal_strlit(" ");
            assert(" "@ =~= seq![' ']);
            assert(loc@.exits.subrange(0, 0int) =~= Seq::<ExitView>::empty());
            assert(out@ =~= prefix2 + "Exits: "@ + join_dirs(loc@.exits.subrange(0, 0int)));
        }
        for i in 0..ne
            invariant
                ne == loc.exits.len(),
                ne == loc@.exits.len(),
                ne > 0,
                out@ == prefix2 + "Exits: "@ + join_dirs(loc@.exits.subrange(0, i as int)),
        {
            proof {
                reveal_strlit(" ");
                assert(" "@ =~= seq![' ']);
                assert(loc@.exits.subrange(0, i + 1) =~= loc@.exits.subrange(0, i as int).push(
                    loc@.exits[i as int],
                ));
                lemma_join_dirs_snoc(loc@.exits.subrange(0, i as int), loc@.exits[i as int]);
                assert(loc@.exits[i as int] == loc.exits@[i as int]@);
            }
            out.append(loc.exits[i].direction.as_str());
            out.append(" ");
            proof {
                assert(out@ =~= prefix2 + "Exits: "@ + join_dirs(loc@.exits.subrange(0, i + 1)));
            }
        }
        proof {
            assert(loc@.exits.subrange(0, ne as int) =~= loc@.exits);
        }
        out.append("\n");
    }
    proof {
        reveal_strlit("\n");
        assert("\n"@ =~= seq!['\n']);
        assert(out@ =~= location_text(loc@, player@));
    }
    Some(out)
}

/// What the loop around the library must do after one command.
pub enum Action {
    /// End the loop.
    Quit,
    /// Write the document to the save file and report how that went.
    SaveDoc(String),
    /// Read the save file and hand its contents to [`install_loaded`].
    LoadRequest,
    /// Print the text.
    Message(String),
    /// Nothing to print; the move already happened.
    Silent,
}

/// Mathematical image of an [`Action`].
pub enum ActionView {
    Quit,
    SaveDoc(Seq<char>),
    LoadRequest,
    Message(Seq<char>),
    Silent,
}

impl View for Action {
    type V = ActionView;

    open spec fn view(&self) -> ActionView {
        match self {
            Action::Quit => ActionView::Quit,
            Action::SaveDoc(d) => ActionView::SaveDoc(d@),
            Action::LoadRequest => ActionView::LoadRequest,
            Action::Message(t) => ActionView::Message(t@),
            Action::Silent => ActionView::Silent,
        }
    }
}

/// The exploration loop's transition: one line of input takes the player to
/// the next state and asks the loop for one action.
pub open spec fn step_spec(w: Seq<WorldEntryView>, p: PlayerView, line: Seq<char>) -> (
    PlayerView,
    ActionView,
) {
    match parse_command_spec(line) {
        CommandView::Quit => (p, ActionView::Quit),
        CommandView::Save => (p, ActionView::SaveDoc(crate::codec::enc_player(p))),
        CommandView::Load => (p, ActionView::LoadRequest),
        CommandView::Inventory => (p, ActionView::Message(inventory_text(p))),
        CommandView::Go(dir) => {
            let r = go_spec(w, p, dir);
            if r.1 == MoveOutcome::Moved {
                (r.0, ActionView::Silent)
            } else {
                (r.0, ActionView::Message("You can't go that way!\n"@))
            }
        },
        CommandView::Unknown => (p, ActionView::Message("I don't understand that command.\n"@)),
    }
}

/// Dispatches one line of input (already trimmed and lowercased).
pub fn explore_step(player: &mut Player, world: &World, line: &str) -> (a: Action)
    ensures
        (final(player)@, a@) == step_spec(world@, old(player)@, line@),
{
    match parse_command(line) {
        Command::Quit => Action::Quit,
        Command::Save => Action::SaveDoc(crate::codec::encode_player(player)),
        Command::Load => Action::LoadRequest,
        Command::Inventory => Action::Message(render_inventory(player)),
        Command::Go(dir) => {
            let o = apply_go(player, world, dir.as_str());
            if o == MoveOutcome::Moved {
                Action::Silent
            } else {
                Action::Message("You can't go that way!\n".to_owned())
            }
        },
        Command::Unknown => Action::Message("I don't understand that command.\n".to_owned()),
    }
}

/// An `inventory` command mutates nothing, and repeating it with no
/// mutation in between produces identical output: two successive steps on
/// the same player print the same text and leave the player as it was.
pub proof fn lemma_inventory_idempotent(w: Seq<WorldEntryView>, p: PlayerView)
    ensures
        ({
            let r1 = step_spec(w, p, "inventory"@);
            let r2 = step_spec(w, r1.0, "inventory"@);
            &&& r1.0 == p
            &&& r2.0 == p
            &&& r1.1 == r2.1
            &&& r1.1 == ActionView::Message(inventory_text(p))
        }),
{
    reveal_strlit("inventory");
    reveal_strlit("quit");
    reveal_strlit("save");
    reveal_strlit("load");
    assert("inventory"@.len() == 9);
    assert("quit"@.len() == 4);
    assert("save"@.len() == 4);
    assert("load"@.len() == 4);
    assert("inventory"@ != "quit"@);
    assert("inventory"@ != "save"@);
    assert("inventory"@ != "load"@);
    assert("inventory"@[0] != 'g');
}

/// Saving never mutates the player, and the document it writes loads back
/// to exactly the player that was saved: a `save` step hands the loop the
/// encoded player, and parsing that document yields the same player again.
pub proof fn lemma_save_load_round_trip(w: Seq<WorldEntryView>, p: PlayerView)
    ensures
        ({
            let r = step_spec(w, p, "save"@);
            &&& r.0 == p
            &&& r.1 == ActionView::SaveDoc(crate::codec::enc_player(p))
            &&& crate::codec::parse_player(crate::codec::enc_player(p)) == Some(p)
        }),
{
    reveal_strlit("save");
    reveal_strlit("quit");
    assert("save"@[0] == 's' && "quit"@[0] == 'q');
    assert("save"@ != "quit"@);
    crate::codec::lemma_player_round_trip(p);
}

/// Installs the contents of a save file: on a well-formed document the
/// loaded player replaces the current one wholesale — without any check
/// that its location is on the world map — and on any other document
/// nothing changes.
pub fn install_loaded(player: &mut Player, doc: &str) -> (ok: bool)
    ensures
        match crate::codec::parse_player(doc@) {
            Some(pv) => ok && final(player)@ == pv,
            None => !ok && final(player)@ == old(player)@,
        },
{
    match crate::codec::decode_player(doc) {
        Some(p) => {
            *player = p;
            true
        },
        None => false,
    }
}

} // verus!
