//! Games written down in portable game notation: the tags and the movetext of
//! each game, read from the lines of a file.

use vstd::prelude::*;

use crate::text::chars_of;
use crate::text::joined;
use crate::text::split_words;
use crate::text::string_of;
use crate::text::texts_of;
use crate::text::words;
use mov::parse_token;
use mov::Move;
use mov::ParseError;

pub mod mov;

verus! {

/// The value that a list of pairs gives to a name: that of the first pair
/// with the name.
pub open spec fn lookup(pairs: Seq<(String, String)>, name: Seq<char>) -> Option<Seq<char>>
    decreases pairs.len(),
{
    if pairs.len() == 0 {
        None
    } else if pairs[0].0@ == name {
        Some(pairs[0].1@)
    } else {
        lookup(pairs.drop_first(), name)
    }
}

/// Whether no name occurs twice in a list of pairs.
pub open spec fn names_differ(pairs: Seq<(String, String)>) -> bool {
    forall|i: int, j: int|
        0 <= i < j < pairs.len() ==> (#[trigger] pairs[i]).0@ != (#[trigger] pairs[j]).0@
}

/// Replacing the first pair of a name changes the value of that name and of
/// no other.
proof fn lemma_lookup_update(
    pairs: Seq<(String, String)>,
    i: int,
    pair: (String, String),
    name: Seq<char>,
)
    requires
        0 <= i < pairs.len(),
        pairs[i].0@ == pair.0@,
        forall|j: int| 0 <= j < i ==> (#[trigger] pairs[j]).0@ != pair.0@,
    ensures
        lookup(pairs.update(i, pair), name) == if name == pair.0@ {
            Some(pair.1@)
        } else {
            lookup(pairs, name)
        },
    decreases i,
{
    if i > 0 {
        assert(pairs[0].0@ != pair.0@);
        assert(pairs.update(i, pair).drop_first() =~= pairs.drop_first().update(i - 1, pair));
        assert forall|j: int| 0 <= j < i - 1 implies (#[trigger] pairs.drop_first()[j]).0@
            != pair.0@ by {
            assert(pairs[j + 1].0@ != pair.0@);
        }
        lemma_lookup_update(pairs.drop_first(), i - 1, pair, name);
    } else {
        assert(pairs.update(i, pair).drop_first() =~= pairs.drop_first());
    }
}

/// A pair added at the end gives its value to its name where the name had
/// none, and changes nothing else.
proof fn lemma_lookup_push(pairs: Seq<(String, String)>, pair: (String, String), name: Seq<char>)
    ensures
        lookup(pairs.push(pair), name) == match lookup(pairs, name) {
            Some(v) => Some(v),
            None => if name == pair.0@ {
                Some(pair.1@)
            } else {
                None
            },
        },
    decreases pairs.len(),
{
    if pairs.len() == 0 {
        assert(pairs.push(pair).drop_first() =~= pairs);
    } else {
        assert(pairs.push(pair).drop_first() =~= pairs.drop_first().push(pair));
        lemma_lookup_push(pairs.drop_first(), pair, name);
    }
}

/// A name that no pair has gets no value.
proof fn lemma_lookup_absent(pairs: Seq<(String, String)>, name: Seq<char>)
    requires
        forall|j: int| 0 <= j < pairs.len() ==> (#[trigger] pairs[j]).0@ != name,
    ensures
        lookup(pairs, name) is None,
    decreases pairs.len(),
{
    if pairs.len() > 0 {
        assert(pairs[0].0@ != name);
        assert forall|j: int| 0 <= j < pairs.drop_first().len() implies (
        #[trigger] pairs.drop_first()[j]).0@ != name by {
            assert(pairs[j + 1].0@ != name);
        }
        lemma_lookup_absent(pairs.drop_first(), name);
    }
}

/// The first pair with a name gives the name its value.
proof fn lemma_lookup_first(pairs: Seq<(String, String)>, i: int, name: Seq<char>)
    requires
        0 <= i < pairs.len(),
        pairs[i].0@ == name,
        forall|j: int| 0 <= j < i ==> (#[trigger] pairs[j]).0@ != name,
    ensures
        lookup(pairs, name) == Some(pairs[i].1@),
    decreases i,
{
    if i > 0 {
        assert(pairs[0].0@ != name);
        assert forall|j: int| 0 <= j < i - 1 implies (#[trigger] pairs.drop_first()[j]).0@
            != name by {
            assert(pairs[j + 1].0@ != name);
        }
        lemma_lookup_first(pairs.drop_first(), i - 1, name);
    }
}

/// The tags of a game, each a name with a value. Two sets of tags are equal
/// where they give the same values to the same names, in whatever order the
/// tags came.
#[derive(Clone, Debug, Eq)]
pub struct Tags {
    pairs: Vec<(String, String)>,
}

impl PartialEq for Tags {
    fn eq(&self, other: &Self) -> (same: bool) {
        let same = self.agrees_with(other) && other.agrees_with(self);
        proof {
            if same {
                assert forall|name: Seq<char>|
                    lookup(self.pairs@, name) == lookup(other.pairs@, name) by {
                    if lookup(self.pairs@, name) is Some {
                        if forall|j: int|
                            0 <= j < self.pairs.len() ==> (#[trigger] self.pairs[j]).0@ != name {
                            lemma_lookup_absent(self.pairs@, name);
                        }
                        let j = choose|j: int|
                            0 <= j < self.pairs.len() && (#[trigger] self.pairs[j]).0@ == name;
                        assert(self.agrees_at(other, j));
                    } else if lookup(other.pairs@, name) is Some {
                        if forall|j: int|
                            0 <= j < other.pairs.len() ==> (#[trigger] other.pairs[j]).0@
                                != name {
                            lemma_lookup_absent(other.pairs@, name);
                        }
                        let j = choose|j: int|
                            0 <= j < other.pairs.len() && (#[trigger] other.pairs[j]).0@ == name;
                        assert(other.agrees_at(self, j));
                    }
                }
                assert(self@ =~= other@);
            } else {
                let name = if !self.agrees(other) {
                    self.pairs[self.odd_one(other)].0@
                } else {
                    other.pairs[other.odd_one(self)].0@
                };
                assert(lookup(self.pairs@, name) != lookup(other.pairs@, name));
                assert(self@.contains_key(name) != other@.contains_key(name) || self@[name]
                    != other@[name]);
            }
        }
        same
    }
}

impl vstd::std_specs::cmp::PartialEqSpecImpl for Tags {
    open spec fn obeys_eq_spec() -> bool {
        true
    }

    open spec fn eq_spec(&self, other: &Self) -> bool {
        self@ == other@
    }
}

impl View for Tags {
    type V = Map<Seq<char>, Seq<char>>;

    closed spec fn view(&self) -> Map<Seq<char>, Seq<char>> {
        Map::new(
            |name: Seq<char>| lookup(self.pairs@, name) is Some,
            |name: Seq<char>| lookup(self.pairs@, name)->0,
        )
    }
}

impl Tags {
    /// Whether every name is held once only. Tags that start empty and grow
    /// by `insert` are always so.
    pub closed spec fn distinct(&self) -> bool {
        names_differ(self.pairs@)
    }

    /// No tags at all.
    pub fn new() -> (tags: Tags)
        ensures
            tags@ == Map::<Seq<char>, Seq<char>>::empty(),
            tags.distinct(),
    {
        let tags = Tags { pairs: Vec::new() };
        assert(tags@ =~= Map::<Seq<char>, Seq<char>>::empty());
        tags
    }

    /// The place of the first pair with the given name, if there is one.
    fn find(&self, name: &String) -> (found: Option<usize>)
        ensures
            match found {
                Some(i) => {
                    &&& i < self.pairs.len()
                    &&& self.pairs[i as int].0@ == name@
                    &&& forall|j: int| 0 <= j < i ==> (#[trigger] self.pairs[j]).0@ != name@
                },
                None => forall|j: int|
                    0 <= j < self.pairs.len() ==> (#[trigger] self.pairs[j]).0@ != name@,
            },
    {
        for i in 0..self.pairs.len()
            invariant
                forall|j: int| 0 <= j < i ==> (#[trigger] self.pairs[j]).0@ != name@,
        {
            if self.pairs[i].0 == *name {
                return Some(i);
            }
        }
        None
    }

    /// The value that the pairs give to a name, if they give one.
    fn value_of(&self, name: &String) -> (value: Option<&String>)
        ensures
            match value {
                Some(v) => lookup(self.pairs@, name@) == Some(v@),
                None => lookup(self.pairs@, name@) is None,
            },
    {
        match self.find(name) {
            Some(i) => {
                proof {
                    lemma_lookup_first(self.pairs@, i as int, name@);
                }
                Some(&self.pairs[i].1)
            },
            None => {
                proof {
                    lemma_lookup_absent(self.pairs@, name@);
                }
                None
            },
        }
    }

    /// Whether the other tags give the name of the pair at a place the value
    /// that these give it.
    spec fn agrees_at(&self, other: &Tags, i: int) -> bool {
        lookup(self.pairs@, self.pairs[i].0@) == lookup(other.pairs@, self.pairs[i].0@)
    }

    /// Whether the other tags give every name of these the value that these
    /// give it.
    spec fn agrees(&self, other: &Tags) -> bool {
        forall|i: int| 0 <= i < self.pairs.len() ==> self.agrees_at(other, i)
    }

    /// A place whose name the other tags treat otherwise, where there is one.
    spec fn odd_one(&self, other: &Tags) -> int {
        choose|i: int| 0 <= i < self.pairs.len() && !self.agrees_at(other, i)
    }

    /// Whether the other tags give every name of these the value that these
    /// give it.
    fn agrees_with(&self, other: &Tags) -> (b: bool)
        ensures
            b == self.agrees(other),
    {
        for i in 0..self.pairs.len()
            invariant
                forall|j: int| 0 <= j < i ==> self.agrees_at(other, j),
        {
            let name = &self.pairs[i].0;
            let alike = match (self.value_of(name), other.value_of(name)) {
                (Some(mine), Some(theirs)) => *mine == *theirs,
                (None, None) => true,
                _ => false,
            };
            if !alike {
                assert(!self.agrees_at(other, i as int));
                return false;
            }
            assert(self.agrees_at(other, i as int));
        }
        true
    }

    /// The value of a tag, if the tag is there.
    pub fn get(&self, name: &str) -> (value: Option<&String>)
        ensures
            match value {
                Some(v) => self@.contains_key(name@) && v@ == self@[name@],
                None => !self@.contains_key(name@),
            },
    {
        let key = name.to_owned();
        match self.find(&key) {
            Some(i) => {
                proof {
                    lemma_lookup_first(self.pairs@, i as int, name@);
                }
                Some(&self.pairs[i].1)
            },
            None => {
                proof {
                    lemma_lookup_absent(self.pairs@, name@);
                }
                None
            },
        }
    }

    /// Sets a tag. A tag of that name that is there already gets the new
    /// value.
    pub fn insert(&mut self, name: String, value: String)
        ensures
            final(self)@ == old(self)@.insert(name@, value@),
            old(self).distinct() ==> final(self).distinct(),
    {
        let ghost before = self.pairs@;
        let ghost pair = (name, value);
        match self.find(&name) {
            Some(i) => {
                self.pairs[i] = (name, value);
                assert forall|other: Seq<char>|
                    lookup(self.pairs@, other) == if other == pair.0@ {
                        Some(pair.1@)
                    } else {
                        lookup(before, other)
                    } by {
                    lemma_lookup_update(before, i as int, pair, other);
                }
            },
            None => {
                self.pairs.push((name, value));
                assert forall|other: Seq<char>|
                    lookup(self.pairs@, other) == if other == pair.0@ {
                        Some(pair.1@)
                    } else {
                        lookup(before, other)
                    } by {
                    lemma_lookup_push(before, pair, other);
                    lemma_lookup_absent(before, pair.0@);
                }
            },
        }
        assert(self@ =~= old(self)@.insert(pair.0@, pair.1@));
    }

    /// The tags as pairs of name and value. The first pair of a name is the
    /// one that counts.
    pub fn pairs(&self) -> (pairs: &Vec<(String, String)>)
        ensures
            forall|name: Seq<char>|
                self@.contains_key(name) <==> #[trigger] lookup(pairs@, name) is Some,
            forall|name: Seq<char>|
                self@.contains_key(name) ==> self@[name] == #[trigger] lookup(pairs@, name)->0,
            self.distinct() == names_differ(pairs@),
    {
        &self.pairs
    }
}

/// A game: its moves in order, its result as the movetext gives it, and its
/// tags.
#[derive(Clone, Debug, PartialEq)]
pub struct Game {
    pub moves: Vec<Move>,
    pub result: String,
    pub tags: Tags,
}

/// The content of a game as a mathematical value.
pub struct GameView {
    pub moves: Seq<Move>,
    pub result: Seq<char>,
    pub tags: Map<Seq<char>, Seq<char>>,
}

impl View for Game {
    type V = GameView;

    open spec fn view(&self) -> GameView {
        GameView { moves: self.moves@, result: self.result@, tags: self.tags@ }
    }
}

/// The name under which a player is listed where the tags do not give one.
pub open spec fn unnamed() -> Seq<char> {
    "NN"@
}

/// The name of the player of a side: the value of the tag of that side, or
/// `NN` where the game has no such tag.
pub open spec fn player(tags: Map<Seq<char>, Seq<char>>, side: Seq<char>) -> Seq<char> {
    if tags.contains_key(side) {
        tags[side]
    } else {
        unnamed()
    }
}

impl Game {
    /// The names of the two players, White first: the values of the tags
    /// `White` and `Black`, with `NN` for one that is missing.
    pub fn players(&self) -> (names: (String, String))
        ensures
            names.0@ == player(self@.tags, "White"@),
            names.1@ == player(self@.tags, "Black"@),
    {
        let white = match self.tags.get("White") {
            Some(name) => name.clone(),
            None => "NN".to_owned(),
        };
        let black = match self.tags.get("Black") {
            Some(name) => name.clone(),
            None => "NN".to_owned(),
        };
        (white, black)
    }
}

/// The games of one file.
#[derive(Debug, PartialEq)]
pub struct Pgn {
    pub games: Vec<Game>,
}

impl View for Pgn {
    type V = Seq<GameView>;

    open spec fn view(&self) -> Seq<GameView> {
        self.games@.map_values(|g: Game| g@)
    }
}

impl Default for Pgn {
    fn default() -> (pgn: Self)
        ensures
            pgn@ == Seq::<GameView>::empty(),
    {
        let pgn = Pgn { games: Vec::new() };
        assert(pgn@ =~= Seq::<GameView>::empty());
        pgn
    }
}

/// The part of a game that the reader is in.
#[derive(Clone, Copy, Debug, PartialEq, Eq, Structural)]
pub enum State {
    Tags,
    Moves,
}

impl State {
    /// Returns `true` if the reader is among the tags of a game.
    pub fn is_tags(&self) -> (b: bool)
        ensures
            b == (*self == State::Tags),
    {
        matches!(self, State::Tags)
    }

    /// Returns `true` if the reader is in the movetext of a game.
    pub fn is_moves(&self) -> (b: bool)
        ensures
            b == (*self == State::Moves),
    {
        matches!(self, State::Moves)
    }
}

/// What is wrong with a file of games, as a mathematical value.
pub enum Fault {
    /// The movetext of a game holds no word at all, not even a result.
    EmptyGame,
    /// A word of the movetext is neither numbered nor a move.
    BadMove(Seq<char>),
    /// A tag line holds no name.
    EmptyTag,
}

/// The error of a file of games that cannot be read.
#[derive(Clone, Debug, PartialEq, Eq)]
pub enum PgnError {
    /// The movetext of a game holds no word at all, not even a result.
    EmptyGame,
    /// A word of the movetext is neither numbered nor a move.
    BadMove(ParseError),
    /// A tag line holds no name.
    EmptyTag,
}

impl View for PgnError {
    type V = Fault;

    open spec fn view(&self) -> Fault {
        match self {
            PgnError::EmptyGame => Fault::EmptyGame,
            PgnError::BadMove(e) => Fault::BadMove(e.token@),
            PgnError::EmptyTag => Fault::EmptyTag,
        }
    }
}

/// Whether the standard library counts a character as numeric: the result of
/// `char::is_numeric`, which goes by the Unicode categories of numbers.
pub uninterp spec fn char_is_numeric(c: char) -> bool;

/// `char::is_numeric` of the standard library. Taken on trust: the call
/// answers by the character alone, and `char_is_numeric` names its answer.
pub assume_specification[ char::is_numeric ](c: char) -> (b: bool)
    ensures
        b == char_is_numeric(c),
;

/// Movetext without its commentary. A comment opens with `{` and runs to the
/// next `}`. A variation opens with `(` and runs to the next `)`, comments in
/// it passed over. Neither nests, and the marks themselves are dropped.
pub open spec fn without_comments(s: Seq<char>, in_braces: bool, in_parens: bool) -> Seq<char>
    decreases s.len(),
{
    if s.len() == 0 {
        Seq::empty()
    } else if s[0] == '{' {
        without_comments(s.drop_first(), true, in_parens)
    } else if in_braces {
        without_comments(s.drop_first(), s[0] != '}', in_parens)
    } else if s[0] == '(' {
        without_comments(s.drop_first(), false, true)
    } else if in_parens {
        without_comments(s.drop_first(), false, s[0] != ')')
    } else {
        seq![s[0]] + without_comments(s.drop_first(), false, false)
    }
}

/// Whether a word of the movetext begins with a numeric character, as a move
/// number does.
pub open spec fn is_numbered(word: Seq<char>) -> bool {
    word.len() > 0 && char_is_numeric(word[0])
}

/// What one word of the movetext adds to the moves: nothing where it is
/// numbered, else the move that it stands for. A word that is neither is
/// handed back as the error.
pub open spec fn word_move(word: Seq<char>, numbered: bool) -> Result<Option<Move>, Seq<char>> {
    if numbered {
        Ok(None)
    } else {
        match parse_token(word) {
            Some(m) => Ok(Some(m)),
            None => Err(word),
        }
    }
}

/// The moves that a run of words stands for, or the first word that is
/// neither numbered nor a move.
pub open spec fn moves_of(tokens: Seq<Seq<char>>) -> Result<Seq<Move>, Seq<char>>
    decreases tokens.len(),
{
    if tokens.len() == 0 {
        Ok(Seq::empty())
    } else {
        match moves_of(tokens.drop_last()) {
            Err(word) => Err(word),
            Ok(moves) => match word_move(tokens.last(), is_numbered(tokens.last())) {
                Err(word) => Err(word),
                Ok(Some(m)) => Ok(moves.push(m)),
                Ok(None) => Ok(moves),
            },
        }
    }
}

/// The moves and the result of a game, read from its movetext. Commentary is
/// dropped; the last word is the result; of the words before it the numbered
/// ones are passed over and each of the others is a move.
pub open spec fn movetext_of(text: Seq<char>) -> Result<(Seq<Move>, Seq<char>), Fault> {
    let tokens = words(without_comments(text, false, false));
    if tokens.len() == 0 {
        Err(Fault::EmptyGame)
    } else {
        match moves_of(tokens.drop_last()) {
            Ok(moves) => Ok((moves, tokens.last())),
            Err(word) => Err(Fault::BadMove(word)),
        }
    }
}

/// Drops the commentary from movetext.
pub fn strip_comments(chars: &Vec<char>) -> (out: Vec<char>)
    ensures
        out@ == without_comments(chars@, false, false),
{
    let mut in_brackets = false;
    let mut in_parens = false;
    let mut ret: Vec<char> = Vec::new();
    assert(chars@.skip(0) =~= chars@);
    for i in 0..chars.len()
        invariant
            ret@ + without_comments(chars@.skip(i as int), in_brackets, in_parens)
                == without_comments(chars@, false, false),
    {
        let c = chars[i];
        assert(chars@.skip(i as int).drop_first() =~= chars@.skip(i + 1));
        if c == '{' {
            in_brackets = true;
        } else if in_brackets {
            if c == '}' {
                in_brackets = false;
            }
        } else if c == '(' {
            in_parens = true;
        } else if in_parens {
            if c == ')' {
                in_parens = false;
            }
        } else {
            let ghost before = ret@;
            ret.push(c);
            assert(ret@ + without_comments(chars@.skip(i + 1), false, false) =~= before
                + without_comments(chars@.skip(i as int), false, false));
        }
    }
    assert(ret@ =~= without_comments(chars@, false, false));
    ret
}

/// Reads one word of the movetext, given whether it is numbered. A numbered
/// word adds no move; any other word must be a move.
pub fn movetext_token(token: &Vec<char>, numbered: bool) -> (r: Result<Option<Move>, ParseError>)
    ensures
        match r {
            Ok(found) => word_move(token@, numbered) == Ok::<Option<Move>, Seq<char>>(found),
            Err(e) => word_move(token@, numbered) == Err::<Option<Move>, Seq<char>>(token@)
                && e.token@ == token@,
        },
        r matches Ok(Some(m)) ==> m.wf(),
{
    if numbered {
        Ok(None)
    } else {
        match Move::parse_chars(token) {
            Some(m) => Ok(Some(m)),
            None => Err(ParseError { token: string_of(token) }),
        }
    }
}

/// Reads the movetext of a game, given as its characters.
pub fn parse_movetext_chars(chars: &Vec<char>) -> (r: Result<(Vec<Move>, String), PgnError>)
    ensures
        match r {
            Ok(game) => movetext_of(chars@) == Ok::<(Seq<Move>, Seq<char>), Fault>(
                (game.0@, game.1@),
            ),
            Err(e) => movetext_of(chars@) == Err::<(Seq<Move>, Seq<char>), Fault>(e@),
        },
        r matches Ok(game) ==> forall|i: int| 0 <= i < game.0.len() ==> (#[trigger] game.0[i]).wf(),
{
    let ret = strip_comments(chars);
    let chunks = split_words(&ret);
    if chunks.len() == 0 {
        return Err(PgnError::EmptyGame);
    }
    let ghost tokens = texts_of(chunks@);
    let last = chunks.len() - 1;
    let mut moves: Vec<Move> = Vec::new();
    assert(tokens.take(0) =~= Seq::<Seq<char>>::empty());
    for i in 0..last
        invariant
            last == chunks.len() - 1,
            tokens == texts_of(chunks@),
            tokens == words(without_comments(chars@, false, false)),
            forall|j: int| 0 <= j < chunks.len() ==> (#[trigger] chunks[j]).len() > 0,
            moves_of(tokens.take(i as int)) == Ok::<Seq<Move>, Seq<char>>(moves@),
            forall|j: int| 0 <= j < moves.len() ==> (#[trigger] moves[j]).wf(),
    {
        let m = &chunks[i];
        assert(tokens.take(i + 1).drop_last() =~= tokens.take(i as int));
        assert(tokens.take(i + 1).last() == m@);
        assert(tokens.drop_last().take(i + 1) =~= tokens.take(i + 1));
        let numbered = m[0].is_numeric();
        match movetext_token(m, numbered) {
            Ok(Some(mv)) => {
                moves.push(mv);
            },
            Ok(None) => {},
            Err(e) => {
                proof {
                    lemma_moves_of_fails(tokens.drop_last(), i + 1);
                }
                return Err(PgnError::BadMove(e));
            },
        }
    }
    assert(tokens.take(last as int) =~= tokens.drop_last());
    // the result stands at the end
    let result = string_of(&chunks[last]);
    Ok((moves, result))
}

/// Parses the movetext section of a game into a series of moves and the
/// game's result.
pub fn parse_movetext(game: String) -> (r: Result<(Vec<Move>, String), PgnError>)
    ensures
        match r {
            Ok(parsed) => movetext_of(game@) == Ok::<(Seq<Move>, Seq<char>), Fault>(
                (parsed.0@, parsed.1@),
            ),
            Err(e) => movetext_of(game@) == Err::<(Seq<Move>, Seq<char>), Fault>(e@),
        },
        r matches Ok(parsed) ==> forall|i: int|
            0 <= i < parsed.0.len() ==> (#[trigger] parsed.0[i]).wf(),
{
    let chars = chars_of(game.as_str());
    parse_movetext_chars(&chars)
}

/// A line without its square brackets.
pub open spec fn without_brackets(line: Seq<char>) -> Seq<char>
    decreases line.len(),
{
    if line.len() == 0 {
        Seq::empty()
    } else if line.last() == '[' || line.last() == ']' {
        without_brackets(line.drop_last())
    } else {
        without_brackets(line.drop_last()).push(line.last())
    }
}

/// The tag that a tag line gives. With the brackets taken away, the first
/// word is the name, and the other words, put together with single spaces,
/// are the value. Quotation marks stay part of the value.
pub open spec fn tag_of(line: Seq<char>) -> Result<(Seq<char>, Seq<char>), Fault> {
    let parts = words(without_brackets(line));
    if parts.len() == 0 {
        Err(Fault::EmptyTag)
    } else {
        Ok((parts[0], joined(parts.skip(1), ' ')))
    }
}

/// The game that a movetext and tags make.
pub open spec fn game_of(text: Seq<char>, tags: Map<Seq<char>, Seq<char>>) -> Result<
    GameView,
    Fault,
> {
    match movetext_of(text) {
        Ok(parsed) => Ok(GameView { moves: parsed.0, result: parsed.1, tags }),
        Err(fault) => Err(fault),
    }
}

/// How far a file has been read: the games that are complete, and the
/// movetext and the tags of the game that is being gathered.
pub struct Reading {
    pub games: Seq<GameView>,
    pub text: Seq<char>,
    pub tags: Map<Seq<char>, Seq<char>>,
    pub state: State,
}

/// Whether a line is a tag line: one that begins with `[`.
pub open spec fn is_tag_line(line: Seq<char>) -> bool {
    line.len() > 0 && line[0] == '['
}

/// Nothing read yet.
pub open spec fn reading_start() -> Reading {
    Reading {
        games: Seq::empty(),
        text: Seq::empty(),
        tags: Map::empty(),
        state: State::Tags,
    }
}

/// What one more line does. A tag line adds its tag. An empty line among the
/// tags opens the movetext; an empty line in the movetext closes the game,
/// which is then read and put with the others. Any other line is added to the
/// movetext, with a space after it.
pub open spec fn after_line(st: Reading, line: Seq<char>) -> Result<Reading, Fault> {
    if is_tag_line(line) {
        match tag_of(line) {
            Ok(tag) => Ok(Reading { tags: st.tags.insert(tag.0, tag.1), ..st }),
            Err(fault) => Err(fault),
        }
    } else if line.len() == 0 && st.state == State::Tags {
        Ok(Reading { state: State::Moves, ..st })
    } else if line.len() == 0 {
        match game_of(st.text, st.tags) {
            Ok(game) => Ok(
                Reading {
                    games: st.games.push(game),
                    text: Seq::empty(),
                    tags: Map::empty(),
                    state: State::Tags,
                },
            ),
            Err(fault) => Err(fault),
        }
    } else {
        Ok(Reading { text: st.text + line + seq![' '], ..st })
    }
}

/// What a run of lines does, one after the other, up to the first fault.
pub open spec fn after_lines(st: Reading, lines: Seq<Seq<char>>) -> Result<Reading, Fault>
    decreases lines.len(),
{
    if lines.len() == 0 {
        Ok(st)
    } else {
        match after_lines(st, lines.drop_last()) {
            Ok(mid) => after_line(mid, lines.last()),
            Err(fault) => Err(fault),
        }
    }
}

/// The games of a file, given as its lines. What is left after the last line
/// is read as one more game.
pub open spec fn games_of(lines: Seq<Seq<char>>) -> Result<Seq<GameView>, Fault> {
    match after_lines(reading_start(), lines) {
        Ok(st) => match game_of(st.text, st.tags) {
            Ok(game) => Ok(st.games.push(game)),
            Err(fault) => Err(fault),
        },
        Err(fault) => Err(fault),
    }
}

/// The character sequences that a vector of lines stands for.
pub open spec fn line_views(lines: Seq<String>) -> Seq<Seq<char>> {
    lines.map_values(|l: String| l@)
}

/// Once a run of lines has met a fault, every longer run meets the same.
pub proof fn lemma_after_lines_fails(st: Reading, lines: Seq<Seq<char>>, n: int)
    requires
        0 <= n <= lines.len(),
        after_lines(st, lines.take(n)) is Err,
    ensures
        after_lines(st, lines) == after_lines(st, lines.take(n)),
    decreases lines.len() - n,
{
    if n == lines.len() {
        assert(lines.take(n) =~= lines);
    } else {
        assert(lines.take(n + 1).drop_last() =~= lines.take(n));
        lemma_after_lines_fails(st, lines, n + 1);
    }
}

/// Takes the square brackets out of a line.
fn strip_brackets(line: &Vec<char>) -> (out: Vec<char>)
    ensures
        out@ == without_brackets(line@),
{
    let mut out: Vec<char> = Vec::new();
    assert(line@.take(0) =~= Seq::<char>::empty());
    for i in 0..line.len()
        invariant
            out@ == without_brackets(line@.take(i as int)),
    {
        assert(line@.take(i + 1).drop_last() =~= line@.take(i as int));
        if line[i] != '[' && line[i] != ']' {
            out.push(line[i]);
        }
    }
    assert(line@.take(line.len() as int) =~= line@);
    out
}

/// Puts words together with single spaces between them, from the word at
/// `from` on.
fn join_from(parts: &Vec<Vec<char>>, from: usize) -> (out: Vec<char>)
    requires
        from <= parts.len(),
    ensures
        out@ == joined(texts_of(parts@).skip(from as int), ' '),
{
    let ghost rest = texts_of(parts@).skip(from as int);
    let mut out: Vec<char> = Vec::new();
    assert(rest.take(0) =~= Seq::<Seq<char>>::empty());
    for i in from..parts.len()
        invariant
            from <= parts.len(),
            rest == texts_of(parts@).skip(from as int),
            out@ == joined(rest.take(i - from), ' '),
    {
        let ghost k = i - from;
        assert(rest.take(k + 1).drop_last() =~= rest.take(k));
        assert(rest.take(k + 1).last() == parts[i as int]@);
        if i > from {
            out.push(' ');
        }
        let word = &parts[i];
        let ghost before = out@;
        for j in 0..word.len()
            invariant
                out@ == before + word@.take(j as int),
        {
            out.push(word[j]);
            assert(word@.take(j + 1) =~= word@.take(j as int).push(word@[j as int]));
        }
        assert(word@.take(word.len() as int) =~= word@);
        assert(out@ =~= joined(rest.take(k + 1), ' '));
    }
    assert(rest.take(parts.len() - from) =~= rest);
    out
}

/// Reads a tag line into the name and the value of its tag.
pub fn parse_tag(line: &Vec<char>) -> (r: Result<(String, String), PgnError>)
    ensures
        match r {
            Ok(tag) => tag_of(line@) == Ok::<(Seq<char>, Seq<char>), Fault>((tag.0@, tag.1@)),
            Err(e) => tag_of(line@) == Err::<(Seq<char>, Seq<char>), Fault>(e@),
        },
{
    let bare = strip_brackets(line);
    let sp = split_words(&bare);
    if sp.len() == 0 {
        return Err(PgnError::EmptyTag);
    }
    let name = string_of(&sp[0]);
    let value = string_of(&join_from(&sp, 1));
    Ok((name, value))
}

impl Pgn {
    /// Reads the games of a file from its lines, given without their line
    /// breaks. Reading stops at the first fault.
    pub fn from_lines(lines: &Vec<String>) -> (r: Result<Pgn, PgnError>)
        ensures
            match r {
                Ok(pgn) => games_of(line_views(lines@)) == Ok::<Seq<GameView>, Fault>(pgn@),
                Err(e) => games_of(line_views(lines@)) == Err::<Seq<GameView>, Fault>(e@),
            },
    {
        let ghost all = line_views(lines@);
        let mut games: Vec<Game> = Vec::new();
        let mut game: Vec<char> = Vec::new();
        let mut tags = Tags::new();
        let mut state = State::Tags;
        assert(all.take(0) =~= Seq::<Seq<char>>::empty());
        assert(games@.map_values(|g: Game| g@) =~= Seq::<GameView>::empty());
        for i in 0..lines.len()
            invariant
                all == line_views(lines@),
                after_lines(reading_start(), all.take(i as int)) == Ok::<Reading, Fault>(
                    Reading {
                        games: games@.map_values(|g: Game| g@),
                        text: game@,
                        tags: tags@,
                        state,
                    },
                ),
        {
            let line = chars_of(lines[i].as_str());
            assert(all.take(i + 1).drop_last() =~= all.take(i as int));
            assert(all.take(i + 1).last() == line@);
            let ghost done = games@.map_values(|g: Game| g@);
            if line.len() > 0 && line[0] == '[' {
                match parse_tag(&line) {
                    Ok((name, value)) => {
                        tags.insert(name, value);
                    },
                    Err(e) => {
                        proof {
                            lemma_after_lines_fails(reading_start(), all, i + 1);
                        }
                        return Err(e);
                    },
                }
            } else if state.is_tags() && line.len() == 0 {
                state = State::Moves;
            } else if state.is_moves() && line.len() == 0 {
                state = State::Tags;
                match parse_movetext_chars(&game) {
                    Ok((moves, result)) => {
                        let finished = Game { moves, result, tags };
                        games.push(finished);
                        assert(games@.map_values(|g: Game| g@) =~= done.push(finished@));
                        tags = Tags::new();
                        game = Vec::new();
                    },
                    Err(e) => {
                        proof {
                            lemma_after_lines_fails(reading_start(), all, i + 1);
                        }
                        return Err(e);
                    },
                }
            } else {
                let ghost before = game@;
                for j in 0..line.len()
                    invariant
                        game@ == before + line@.take(j as int),
                {
                    game.push(line[j]);
                    assert(line@.take(j + 1) =~= line@.take(j as int).push(line@[j as int]));
                }
                assert(line@.take(line.len() as int) =~= line@);
                game.push(' ');  // keep separation from newlines
                assert(game@ =~= before + line@ + seq![' ']);
            }
        }
        assert(all.take(lines.len() as int) =~= all);
        let ghost done = games@.map_values(|g: Game| g@);
        match parse_movetext_chars(&game) {
            Ok((moves, result)) => {
                let finished = Game { moves, result, tags };
                games.push(finished);
                assert(games@.map_values(|g: Game| g@) =~= done.push(finished@));
                Ok(Pgn { games })
            },
            Err(e) => Err(e),
        }
    }
}

/// Once a run of words has failed, every longer run fails at the same word.
pub proof fn lemma_moves_of_fails(tokens: Seq<Seq<char>>, n: int)
    requires
        0 <= n <= tokens.len(),
        moves_of(tokens.take(n)) is Err,
    ensures
        moves_of(tokens) == moves_of(tokens.take(n)),
    decreases tokens.len() - n,
{
    if n == tokens.len() {
        assert(tokens.take(n) =~= tokens);
    } else {
        assert(tokens.take(n + 1).drop_last() =~= tokens.take(n));
        lemma_moves_of_fails(tokens, n + 1);
    }
}

} // verus!
