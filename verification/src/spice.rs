//! Pieces of a SPICE deck: words, lines and node names.
//!
//! A deck is read line by line. A line is split into words at white space;
//! a line whose first word starts with `*` is a comment, and so is whatever
//! follows a `;` that stands alone. The first word of a line says what the
//! line describes: an element, a subcircuit, a command.

use vstd::prelude::*;
use vstd::string::*;
use crate::bracket_expression::{is_space, is_whitespace};

verus! {

/// What a line outside a control block describes.
#[derive(Clone, Copy, Debug, PartialEq, Eq, Structural)]
pub enum Card {
    /// `.ends`: the end of a subcircuit definition.
    EndSubckt,
    /// `I...`: a current source.
    CurrentSource,
    /// `V...`: a voltage source.
    VoltageSource,
    /// `R...`: a resistor.
    Resistor,
    /// `C...`: a capacitor.
    Capacitor,
    /// `D...`: a diode.
    Diode,
    /// `E...`: a voltage-controlled voltage source.
    Vcvs,
    /// `G...`: a voltage-controlled current source.
    Vccs,
    /// `X...`: an instantiation of a subcircuit.
    Instance,
    /// `.control`: the start of a control block.
    Control,
    /// `.subckt`: the start of a subcircuit definition.
    Subckt,
    /// Any other word that starts with a dot.
    Unsupported,
    /// Anything else.
    Unrecognised,
}

/// What a line inside a control block asks for.
#[derive(Clone, Copy, Debug, PartialEq, Eq, Structural)]
pub enum Command {
    /// `op`: a DC operating point.
    Op,
    /// `tran`: a transient analysis.
    Tran,
    /// `option`: an option setting.
    Option,
    /// `.endc`: the end of the control block.
    EndControl,
    /// Anything else.
    Unknown,
}

/// A character that a node name may hold: a letter, a digit or an
/// underscore.
pub open spec fn is_name_char(c: char) -> bool {
    c == '_' || ('0' <= c <= '9') || ('a' <= c <= 'z') || ('A' <= c <= 'Z')
}

/// A well-formed node name holds letters, digits and underscores only.
/// Both `69` and `bridge_output_234234` are node names.
pub open spec fn well_formed_name(text: Seq<char>) -> bool {
    forall|i: int| 0 <= i < text.len() ==> is_name_char(#[trigger] text[i])
}

/// The text starts with the character `c`.
pub open spec fn starts_with(text: Seq<char>, c: char) -> bool {
    text.len() > 0 && text[0] == c
}

/// What the first word of a line outside a control block stands for.
pub open spec fn card_of(first: Seq<char>) -> Card {
    if first == ".ends"@ {
        Card::EndSubckt
    } else if starts_with(first, 'I') {
        Card::CurrentSource
    } else if starts_with(first, 'V') {
        Card::VoltageSource
    } else if starts_with(first, 'R') {
        Card::Resistor
    } else if starts_with(first, 'C') {
        Card::Capacitor
    } else if starts_with(first, 'D') {
        Card::Diode
    } else if starts_with(first, 'E') {
        Card::Vcvs
    } else if starts_with(first, 'G') {
        Card::Vccs
    } else if starts_with(first, 'X') {
        Card::Instance
    } else if starts_with(first, '.') {
        if first == ".control"@ {
            Card::Control
        } else if first == ".subckt"@ {
            Card::Subckt
        } else {
            Card::Unsupported
        }
    } else {
        Card::Unrecognised
    }
}

/// What the first word of a line inside a control block stands for.
pub open spec fn command_of(first: Seq<char>) -> Command {
    if first == "op"@ {
        Command::Op
    } else if first == "tran"@ {
        Command::Tran
    } else if first == "option"@ {
        Command::Option
    } else if first == ".endc"@ {
        Command::EndControl
    } else {
        Command::Unknown
    }
}

/// The text holds the character `c`.
pub open spec fn holds(text: Seq<char>, c: char) -> bool {
    exists|i: int| 0 <= i < text.len() && text[i] == c
}

/// The words read so far and the word being read, after the characters of
/// `text`.
pub open spec fn reading(text: Seq<char>) -> (Seq<Seq<char>>, Seq<char>)
    decreases text.len(),
{
    if text.len() == 0 {
        (Seq::empty(), Seq::empty())
    } else {
        let (done, word) = reading(text.drop_last());
        if !is_space(text.last()) {
            (done, word.push(text.last()))
        } else if word.len() > 0 {
            (done.push(word), Seq::empty())
        } else {
            (done, word)
        }
    }
}

/// The words of a text: its maximal runs of characters that are not white
/// space.
pub open spec fn words_of(text: Seq<char>) -> Seq<Seq<char>> {
    let (done, word) = reading(text);
    if word.len() > 0 {
        done.push(word)
    } else {
        done
    }
}

/// How many of the leading words of a line count: none if the line is a
/// comment, else those before the first `;` that stands alone.
pub open spec fn counted(words: Seq<Seq<char>>, i: int) -> int
    decreases words.len() - i,
{
    if i < 0 || i >= words.len() || words[i] == ";"@ {
        i
    } else {
        counted(words, i + 1)
    }
}

/// The words of a line of a deck that are not comment.
pub open spec fn bits_of(line: Seq<char>) -> Seq<Seq<char>> {
    let words = words_of(line);
    if words.len() > 0 && starts_with(words[0], '*') {
        Seq::empty()
    } else {
        words.take(counted(words, 0))
    }
}

/// The texts of a list of strings.
pub open spec fn texts(v: Seq<String>) -> Seq<Seq<char>> {
    Seq::new(v.len(), |i: int| v[i]@)
}

/// The position of the name of the subcircuit on an instantiation line:
/// that of the last word without a `=`, or 0 if every word holds one.
pub open spec fn definition_at(bits: Seq<Seq<char>>) -> int
    decreases bits.len(),
{
    if bits.len() == 0 {
        0
    } else if !holds(bits.last(), '=') {
        bits.len() - 1
    } else {
        definition_at(bits.drop_last())
    }
}

/// The options that can be set in a control block.
#[derive(Clone, Copy, Debug, PartialEq, Eq, Structural)]
pub enum Setting {
    Abstol,
    Reltol,
    Rmax,
}

/// The option that a name stands for.
pub open spec fn setting_of(name: Seq<char>) -> Option<Setting> {
    if name == "ABSTOL"@ {
        Some(Setting::Abstol)
    } else if name == "RELTOL"@ {
        Some(Setting::Reltol)
    } else if name == "RMAX"@ {
        Some(Setting::Rmax)
    } else {
        None
    }
}

/// The position of the first `c` in a text from position `i` on, or the
/// length of the text if there is none.
pub open spec fn position(text: Seq<char>, i: int, c: char) -> int
    decreases text.len() - i,
{
    if i < 0 || i >= text.len() || text[i] == c {
        i
    } else {
        position(text, i + 1, c)
    }
}

/// The two sides of an assignment `<name>=<value>`, a text with exactly one
/// `=`.
pub open spec fn sides_of(text: Seq<char>) -> Option<(Seq<char>, Seq<char>)> {
    let at = position(text, 0, '=');
    if at < text.len() && position(text, at + 1, '=') >= text.len() {
        Some((text.subrange(0, at), text.subrange(at + 1, text.len() as int)))
    } else {
        None
    }
}

/// Finds the first `c` from position `i` on.
fn find(text: &str, i: usize, c: char) -> (at: usize)
    requires
        i <= text@.len(),
    ensures
        at == position(text@, i as int, c),
        i <= at <= text@.len(),
{
    let n = text.unicode_len();
    let mut at = i;
    while at < n && text.get_char(at) != c
        invariant
            i <= at <= n,
            n == text@.len(),
            position(text@, i as int, c) == position(text@, at as int, c),
        decreases n - at,
    {
        at = at + 1;
    }
    at
}

/// Splits an assignment `<name>=<value>` into its two sides. A text without
/// a `=`, or with more than one, is no assignment.
pub fn sides(text: &str) -> (r: Option<(String, String)>)
    ensures
        match r {
            Some((name, value)) => sides_of(text@) == Some((name@, value@)),
            None => sides_of(text@) is None,
        },
{
    let n = text.unicode_len();
    let at = find(text, 0, '=');
    if at >= n {
        return None;
    }
    let next = find(text, at + 1, '=');
    if next < n {
        return None;
    }
    Some((text.substring_char(0, at).to_owned(), text.substring_char(at + 1, n).to_owned()))
}

/// Tells which option a name stands for.
pub fn setting(name: &str) -> (s: Option<Setting>)
    ensures
        s == setting_of(name@),
{
    if same(name, "ABSTOL") {
        Some(Setting::Abstol)
    } else if same(name, "RELTOL") {
        Some(Setting::Reltol)
    } else if same(name, "RMAX") {
        Some(Setting::Rmax)
    } else {
        None
    }
}

/// Tells whether two texts are the same.
pub fn same(a: &str, b: &str) -> (r: bool)
    ensures
        r == (a@ == b@),
{
    let x = a.to_owned();
    let y = b.to_owned();
    x == y
}

/// Tells whether a text starts with the character `c`.
pub fn begins_with(text: &str, c: char) -> (r: bool)
    ensures
        r == starts_with(text@, c),
{
    text.unicode_len() > 0 && text.get_char(0) == c
}

/// Tells whether a text holds the character `c`.
pub fn contains(text: &str, c: char) -> (r: bool)
    ensures
        r == holds(text@, c),
{
    let n = text.unicode_len();
    let mut i: usize = 0;
    while i < n
        invariant
            i <= n,
            n == text@.len(),
            forall|j: int| 0 <= j < i ==> text@[j] != c,
        decreases n - i,
    {
        if text.get_char(i) == c {
            return true;
        }
        i = i + 1;
    }
    false
}

/// Tells whether a piece of text is a well-formed node name.
pub fn is_node_name(text: &str) -> (b: bool)
    ensures
        b == well_formed_name(text@),
{
    let n = text.unicode_len();
    let mut i: usize = 0;
    while i < n
        invariant
            i <= n,
            n == text@.len(),
            forall|j: int| 0 <= j < i ==> is_name_char(#[trigger] text@[j]),
        decreases n - i,
    {
        let c = text.get_char(i);
        let ok = c == '_' || ('0' <= c && c <= '9') || ('a' <= c && c <= 'z') || ('A' <= c && c
            <= 'Z');
        if !ok {
            assert(!is_name_char(text@[i as int]));
            return false;
        }
        i = i + 1;
    }
    true
}

/// Tells what a line outside a control block describes, from its first
/// word.
pub fn card(first: &str) -> (c: Card)
    ensures
        c == card_of(first@),
{
    if same(first, ".ends") {
        Card::EndSubckt
    } else if begins_with(first, 'I') {
        Card::CurrentSource
    } else if begins_with(first, 'V') {
        Card::VoltageSource
    } else if begins_with(first, 'R') {
        Card::Resistor
    } else if begins_with(first, 'C') {
        Card::Capacitor
    } else if begins_with(first, 'D') {
        Card::Diode
    } else if begins_with(first, 'E') {
        Card::Vcvs
    } else if begins_with(first, 'G') {
        Card::Vccs
    } else if begins_with(first, 'X') {
        Card::Instance
    } else if begins_with(first, '.') {
        if same(first, ".control") {
            Card::Control
        } else if same(first, ".subckt") {
            Card::Subckt
        } else {
            Card::Unsupported
        }
    } else {
        Card::Unrecognised
    }
}

/// Tells what a line inside a control block asks for, from its first word.
pub fn command(first: &str) -> (c: Command)
    ensures
        c == command_of(first@),
{
    if same(first, "op") {
        Command::Op
    } else if same(first, "tran") {
        Command::Tran
    } else if same(first, "option") {
        Command::Option
    } else if same(first, ".endc") {
        Command::EndControl
    } else {
        Command::Unknown
    }
}

/// Splits a text into its words.
pub fn words(text: &str) -> (v: Vec<String>)
    ensures
        texts(v@) == words_of(text@),
{
    let n = text.unicode_len();
    let mut v: Vec<String> = Vec::new();
    let mut start: usize = 0;
    let mut i: usize = 0;
    proof {
        assert(text@.take(0) =~= Seq::empty());
        assert(texts(v@) =~= Seq::empty());
        assert(text@.subrange(0, 0) =~= Seq::empty());
    }
    while i < n
        invariant
            start <= i <= n,
            n == text@.len(),
            reading(text@.take(i as int)) == (texts(v@), text@.subrange(start as int, i as int)),
        decreases n - i,
    {
        let c = text.get_char(i);
        proof {
            assert(text@.take(i + 1).drop_last() =~= text@.take(i as int));
            assert(text@.take(i + 1).last() == c);
        }
        if is_whitespace(c) {
            if start < i {
                let word = text.substring_char(start, i).to_owned();
                proof {
                    assert(texts(v@.push(word)) =~= texts(v@).push(word@));
                }
                v.push(word);
            }
            start = i + 1;
            proof {
                assert(text@.subrange(start as int, i + 1) =~= Seq::empty());
            }
        } else {
            proof {
                assert(text@.subrange(start as int, i + 1) =~= text@.subrange(
                    start as int,
                    i as int,
                ).push(c));
            }
        }
        i = i + 1;
    }
    proof {
        assert(text@.take(n as int) =~= text@);
    }
    if start < n {
        let word = text.substring_char(start, n).to_owned();
        proof {
            assert(texts(v@.push(word)) =~= texts(v@).push(word@));
        }
        v.push(word);
    }
    v
}

/// Splits a line of a deck into its words, leaving out comments.
pub fn bits(line: &str) -> (v: Vec<String>)
    ensures
        texts(v@) == bits_of(line@),
{
    let mut all = words(line);
    if all.len() > 0 && begins_with(all[0].as_str(), '*') {
        let none: Vec<String> = Vec::new();
        proof {
            assert(texts(all@)[0] == all@[0]@);
            assert(texts(none@) =~= Seq::empty());
        }
        return none;
    }
    let ghost found = texts(all@);
    let mut k: usize = 0;
    while k < all.len() && !same(all[k].as_str(), ";")
        invariant
            k <= all@.len(),
            found == texts(all@),
            counted(found, 0) == counted(found, k as int),
        decreases all@.len() - k,
    {
        proof {
            assert(found[k as int] == all@[k as int]@);
        }
        k = k + 1;
    }
    proof {
        if k < all@.len() {
            assert(found[k as int] == all@[k as int]@);
        }
        assert(found.len() > 0 ==> found[0] == all@[0]@);
        assert(texts(all@.subrange(0, k as int)) =~= found.take(k as int));
    }
    all.truncate(k);
    all
}

/// Finds the name of the subcircuit on an instantiation line.
pub fn definition_index(bits: &Vec<String>) -> (idx: usize)
    ensures
        idx == definition_at(texts(bits@)),
{
    let ghost all = texts(bits@);
    let mut i: usize = bits.len();
    proof {
        assert(all.take(i as int) =~= all);
    }
    while i > 0
        invariant
            i <= bits@.len(),
            all == texts(bits@),
            definition_at(all) == definition_at(all.take(i as int)),
        decreases i,
    {
        proof {
            assert(all.take(i as int).drop_last() =~= all.take(i - 1));
            assert(all.take(i as int).last() == bits@[i - 1]@);
        }
        if !contains(bits[i - 1].as_str(), '=') {
            return i - 1;
        }
        i = i - 1;
    }
    proof {
        assert(all.take(0) =~= Seq::empty());
    }
    0
}

} // verus!
