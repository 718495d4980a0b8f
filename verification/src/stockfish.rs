//! The text side of talking to a chess engine: the commands that are sent
//! and the score that is found in what comes back. Starting the engine and
//! moving the text to and from it is left to the caller.

use vstd::prelude::*;

use crate::text::chars_of;
use crate::text::decimal;
use crate::text::is_prefix;
use crate::text::push_decimal;
use crate::text::split_words;
use crate::text::starts_with;
use crate::text::string_of;
use crate::text::texts_of;
use crate::text::words;

verus! {

/// The command that sets the engine's position to the one that a position
/// line describes.
pub fn position_command(fen: &str) -> (cmd: String)
    ensures
        cmd@ == "position fen "@ + fen@,
{
    let mut cmd = "position fen ".to_owned();
    cmd.append(fen);
    cmd
}

/// The command that starts a search to a depth.
pub fn go_command(depth: usize) -> (cmd: String)
    ensures
        cmd@ == "go depth "@ + decimal(depth as nat),
{
    let mut cmd = "go depth ".to_owned();
    push_decimal(&mut cmd, depth);
    cmd
}

/// The word that marks a line of search information.
pub open spec fn info_word() -> Seq<char> {
    seq!['i', 'n', 'f', 'o']
}

/// The word that comes before a score in centipawns.
pub open spec fn cp_word() -> Seq<char> {
    seq!['c', 'p']
}

/// The place of the first word `cp` among the words from `from` on, or the
/// number of words where there is none.
pub open spec fn cp_place(parts: Seq<Seq<char>>, from: int) -> int
    decreases parts.len() - from,
{
    if from >= parts.len() {
        parts.len() as int
    } else if parts[from] == cp_word() {
        from
    } else {
        cp_place(parts, from + 1)
    }
}

/// What one line of the engine's output says of the score.
pub enum LineScore {
    /// The line gives no score.
    Silent,
    /// The line gives this score, as it is written.
    Score(Seq<char>),
    /// The line announces a score and ends before giving it.
    Cut,
}

/// What a line says of the score. Only a line that begins with `info` says
/// anything; its score is the word after the first word `cp`.
pub open spec fn line_score(line: Seq<char>) -> LineScore {
    let parts = words(line);
    let at = cp_place(parts, 0);
    if !is_prefix(info_word(), line) || at >= parts.len() {
        LineScore::Silent
    } else if at + 1 >= parts.len() {
        LineScore::Cut
    } else {
        LineScore::Score(parts[at + 1])
    }
}

/// The score that a run of lines leaves: that of the last line that gives
/// one, or `None` where no line does. A line that is cut short after `cp`
/// is an error, and so is every run that holds one.
pub open spec fn last_score(lines: Seq<Seq<char>>) -> Result<Option<Seq<char>>, ()>
    decreases lines.len(),
{
    if lines.len() == 0 {
        Ok(None)
    } else {
        match last_score(lines.drop_last()) {
            Err(e) => Err(e),
            Ok(earlier) => match line_score(lines.last()) {
                LineScore::Silent => Ok(earlier),
                LineScore::Score(text) => Ok(Some(text)),
                LineScore::Cut => Err(()),
            },
        }
    }
}

/// The lines of a text: the stretches between its line feeds. `line` holds
/// the characters of a line that began before `s`.
pub open spec fn lines_after(s: Seq<char>, line: Seq<char>) -> Seq<Seq<char>>
    decreases s.len(),
{
    if s.len() == 0 {
        seq![line]
    } else if s[0] == '\n' {
        seq![line] + lines_after(s.drop_first(), Seq::empty())
    } else {
        lines_after(s.drop_first(), line.push(s[0]))
    }
}

/// The lines of a text: the stretches between its line feeds. A text with
/// `n` line feeds has `n + 1` lines, some of which may be empty.
pub open spec fn lines_of(s: Seq<char>) -> Seq<Seq<char>> {
    lines_after(s, Seq::empty())
}

/// The error of engine output in which a line ends straight after `cp`.
#[derive(Clone, Copy, Debug, PartialEq, Eq)]
pub struct MissingScore;

/// Once a run of lines has met a line that is cut short, every longer run
/// is in error too.
pub proof fn lemma_last_score_fails(lines: Seq<Seq<char>>, n: int)
    requires
        0 <= n <= lines.len(),
        last_score(lines.take(n)) is Err,
    ensures
        last_score(lines) is Err,
    decreases lines.len() - n,
{
    if n == lines.len() {
        assert(lines.take(n) =~= lines);
    } else {
        assert(lines.take(n + 1).drop_last() =~= lines.take(n));
        lemma_last_score_fails(lines, n + 1);
    }
}

/// Splits a text at its line feeds.
pub fn split_lines(chars: &Vec<char>) -> (out: Vec<Vec<char>>)
    ensures
        texts_of(out@) == lines_of(chars@),
{
    let mut out: Vec<Vec<char>> = Vec::new();
    let mut line: Vec<char> = Vec::new();
    assert(texts_of(out@) =~= Seq::empty());
    assert(chars@.skip(0) =~= chars@);
    for i in 0..chars.len()
        invariant
            texts_of(out@) + lines_after(chars@.skip(i as int), line@) == lines_of(chars@),
    {
        let ghost rest = chars@.skip(i as int);
        assert(rest.drop_first() =~= chars@.skip(i + 1));
        let c = chars[i];
        if c == '\n' {
            let ghost before = texts_of(out@);
            let ghost gathered = line@;
            out.push(line);
            line = Vec::new();
            assert(texts_of(out@) =~= before + seq![gathered]);
            assert(line@ =~= Seq::<char>::empty());
            assert(texts_of(out@) + lines_after(chars@.skip(i + 1), line@) =~= before
                + lines_after(rest, gathered));
        } else {
            line.push(c);
        }
    }
    let ghost before = texts_of(out@);
    out.push(line);
    assert(texts_of(out@) =~= before + seq![line@]);
    out
}

/// Whether the characters are the word `cp`.
fn is_cp(word: &Vec<char>) -> (b: bool)
    ensures
        b == (word@ == cp_word()),
{
    let b = word.len() == 2 && word[0] == 'c' && word[1] == 'p';
    assert(b ==> word@ =~= cp_word());
    b
}

/// Reads what one line of the engine's output says of the score.
pub fn score_in_line(line: &Vec<char>) -> (r: Result<Option<String>, MissingScore>)
    ensures
        match r {
            Ok(Some(text)) => line_score(line@) == LineScore::Score(text@),
            Ok(None) => line_score(line@) == LineScore::Silent,
            Err(_) => line_score(line@) == LineScore::Cut,
        },
{
    let info = vec!['i', 'n', 'f', 'o'];
    assert(info@ =~= info_word());
    if !starts_with(line, &info) {
        return Ok(None);
    }
    let sp = split_words(line);
    let ghost parts = texts_of(sp@);
    let mut at: usize = 0;
    while at < sp.len() && !is_cp(&sp[at])
        invariant
            at <= sp.len(),
            parts == texts_of(sp@),
            cp_place(parts, at as int) == cp_place(parts, 0),
        decreases sp.len() - at,
    {
        at += 1;
    }
    if at >= sp.len() {
        Ok(None)
    } else if at + 1 >= sp.len() {
        Err(MissingScore)
    } else {
        Ok(Some(string_of(&sp[at + 1])))
    }
}

/// Finds the score in the output of a search: the word after `cp` on the
/// last line that begins with `info` and holds the word `cp`. The score is
/// handed back as it is written; `None` means that no line gave one.
pub fn score_text(output: &str) -> (r: Result<Option<String>, MissingScore>)
    ensures
        match r {
            Ok(Some(text)) => last_score(lines_of(output@)) == Ok::<Option<Seq<char>>, ()>(
                Some(text@),
            ),
            Ok(None) => last_score(lines_of(output@)) == Ok::<Option<Seq<char>>, ()>(None),
            Err(_) => last_score(lines_of(output@)) is Err,
        },
{
    let chars = chars_of(output);
    let lines = split_lines(&chars);
    let ghost all = texts_of(lines@);
    let mut score: Option<String> = None;
    assert(all.take(0) =~= Seq::<Seq<char>>::empty());
    for i in 0..lines.len()
        invariant
            all == texts_of(lines@),
            all == lines_of(output@),
            match score {
                Some(text) => last_score(all.take(i as int)) == Ok::<Option<Seq<char>>, ()>(
                    Some(text@),
                ),
                None => last_score(all.take(i as int)) == Ok::<Option<Seq<char>>, ()>(None),
            },
    {
        assert(all.take(i + 1).drop_last() =~= all.take(i as int));
        assert(all.take(i + 1).last() == lines[i as int]@);
        match score_in_line(&lines[i]) {
            Ok(Some(text)) => {
                score = Some(text);
            },
            Ok(None) => {},
            Err(e) => {
                proof {
                    lemma_last_score_fails(all, i + 1);
                }
                return Err(e);
            },
        }
    }
    assert(all.take(lines.len() as int) =~= all);
    Ok(score)
}

} // verus!
