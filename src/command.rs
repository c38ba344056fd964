//! Chat command words and their arguments.

use vstd::prelude::*;

verus! {

/// A chat command, named by its first word.
#[derive(Debug, Clone, Copy, PartialEq, Eq, Structural)]
pub enum Command {
    Join,
    Leave,
    List,
    Start,
    RiotId,
    Maps,
    AddMap,
    Cancel,
    RemoveMap,
    Kick,
    Captain,
    TeamName,
    Pick,
    Defense,
    Attack,
    RecoverQueue,
    Clear,
    Help,
}

/// The command that the word `w` names, if any.
pub open spec fn command_of(w: Seq<char>) -> Option<Command> {
    if w == ".join"@ {
        Some(Command::Join)
    } else if w == ".leave"@ {
        Some(Command::Leave)
    } else if w == ".list"@ {
        Some(Command::List)
    } else if w == ".start"@ {
        Some(Command::Start)
    } else if w == ".riotid"@ {
        Some(Command::RiotId)
    } else if w == ".maps"@ {
        Some(Command::Maps)
    } else if w == ".kick"@ {
        Some(Command::Kick)
    } else if w == ".addmap"@ {
        Some(Command::AddMap)
    } else if w == ".cancel"@ {
        Some(Command::Cancel)
    } else if w == ".captain"@ {
        Some(Command::Captain)
    } else if w == ".teamname"@ {
        Some(Command::TeamName)
    } else if w == ".pick"@ {
        Some(Command::Pick)
    } else if w == ".defense"@ {
        Some(Command::Defense)
    } else if w == ".attack"@ {
        Some(Command::Attack)
    } else if w == ".removemap"@ {
        Some(Command::RemoveMap)
    } else if w == ".recoverqueue"@ {
        Some(Command::RecoverQueue)
    } else if w == ".clear"@ {
        Some(Command::Clear)
    } else if w == ".help"@ {
        Some(Command::Help)
    } else {
        None
    }
}

/// Whether `a` and `b` hold the same characters.
pub fn str_equal(a: &str, b: &str) -> (r: bool)
    ensures
        r == (a@ == b@),
{
    let n = a.unicode_len();
    if n != b.unicode_len() {
        return false;
    }
    let mut i: usize = 0;
    while i < n
        invariant
            n == a@.len() == b@.len(),
            i <= n,
            forall|k: int| 0 <= k < i ==> a@[k] == b@[k],
        decreases n - i,
    {
        if a.get_char(i) != b.get_char(i) {
            return false;
        }
        i = i + 1;
    }
    assert(a@ =~= b@);
    true
}

impl Command {
    /// The command that `input` names, if any: the word exactly, dot
    /// included.
    pub fn from_str(input: &str) -> (r: Option<Command>)
        ensures
            r == command_of(input@),
    {
        if str_equal(input, ".join") {
            Some(Command::Join)
        } else if str_equal(input, ".leave") {
            Some(Command::Leave)
        } else if str_equal(input, ".list") {
            Some(Command::List)
        } else if str_equal(input, ".start") {
            Some(Command::Start)
        } else if str_equal(input, ".riotid") {
            Some(Command::RiotId)
        } else if str_equal(input, ".maps") {
            Some(Command::Maps)
        } else if str_equal(input, ".kick") {
            Some(Command::Kick)
        } else if str_equal(input, ".addmap") {
            Some(Command::AddMap)
        } else if str_equal(input, ".cancel") {
            Some(Command::Cancel)
        } else if str_equal(input, ".captain") {
            Some(Command::Captain)
        } else if str_equal(input, ".teamname") {
            Some(Command::TeamName)
        } else if str_equal(input, ".pick") {
            Some(Command::Pick)
        } else if str_equal(input, ".defense") {
            Some(Command::Defense)
        } else if str_equal(input, ".attack") {
            Some(Command::Attack)
        } else if str_equal(input, ".removemap") {
            Some(Command::RemoveMap)
        } else if str_equal(input, ".recoverqueue") {
            Some(Command::RecoverQueue)
        } else if str_equal(input, ".clear") {
            Some(Command::Clear)
        } else if str_equal(input, ".help") {
            Some(Command::Help)
        } else {
            None
        }
    }

    /// Whether only an administrator may run the command.
    pub fn needs_admin(&self) -> (r: bool)
        ensures
            r == (*self == Command::Start || *self == Command::Kick || *self == Command::AddMap
                || *self == Command::RemoveMap || *self == Command::RecoverQueue || *self
                == Command::Clear || *self == Command::Cancel),
    {
        match self {
            Command::Start | Command::Kick | Command::AddMap | Command::RemoveMap
            | Command::RecoverQueue | Command::Clear | Command::Cancel => true,
            _ => false,
        }
    }
}

/// The text of `s` before its first space (all of it if it has none).
pub open spec fn first_piece(s: Seq<char>) -> Seq<char>
    decreases s.len(),
{
    if s.len() == 0 || s[0] == ' ' {
        Seq::empty()
    } else {
        seq![s[0]] + first_piece(s.drop_first())
    }
}

/// The text of `s` after its first space, if it has one.
pub open spec fn after_space(s: Seq<char>) -> Option<Seq<char>>
    decreases s.len(),
{
    if s.len() == 0 {
        None
    } else if s[0] == ' ' {
        Some(s.drop_first())
    } else {
        after_space(s.drop_first())
    }
}

proof fn lemma_split_at(s: Seq<char>, i: int)
    requires
        0 <= i <= s.len(),
        forall|k: int| 0 <= k < i ==> s[k] != ' ',
        i < s.len() ==> s[i] == ' ',
    ensures
        first_piece(s) == s.take(i),
        after_space(s) == if i < s.len() {
            Some(s.skip(i + 1))
        } else {
            None::<Seq<char>>
        },
    decreases i,
{
    if i > 0 {
        let t = s.drop_first();
        assert forall|k: int| 0 <= k < i - 1 implies t[k] != ' ' by {
            assert(t[k] == s[k + 1]);
        }
        lemma_split_at(t, i - 1);
        assert(s.take(i) =~= seq![s[0]] + t.take(i - 1));
        if i < s.len() {
            assert(t.skip(i) =~= s.skip(i + 1));
        }
    } else {
        assert(s.take(0) =~= Seq::<char>::empty());
        if s.len() > 0 {
            assert(s.drop_first() =~= s.skip(1));
        }
    }
}

/// Where the first space of `s` stands, or its length if it has none.
fn space_index(s: &str) -> (r: usize)
    ensures
        r <= s@.len(),
        forall|k: int| 0 <= k < r ==> s@[k] != ' ',
        r < s@.len() ==> s@[r as int] == ' ',
{
    let n = s.unicode_len();
    let mut i: usize = 0;
    while i < n
        invariant
            n == s@.len(),
            i <= n,
            forall|k: int| 0 <= k < i ==> s@[k] != ' ',
        decreases n - i,
    {
        if s.get_char(i) == ' ' {
            return i;
        }
        i = i + 1;
    }
    n
}

/// The text of `s` before its first space.
pub fn first_word(s: &str) -> (r: String)
    ensures
        r@ == first_piece(s@),
{
    let i = space_index(s);
    proof {
        lemma_split_at(s@, i as int);
    }
    s.substring_char(0, i).to_owned()
}

/// The text of `s` after its first space, if it has one.
pub fn after_first_space(s: &str) -> (r: Option<String>)
    ensures
        r matches Some(t) ==> after_space(s@) == Some(t@),
        r is None ==> after_space(s@) is None,
{
    let i = space_index(s);
    proof {
        lemma_split_at(s@, i as int);
    }
    let n = s.unicode_len();
    if i < n {
        Some(s.substring_char(i + 1, n).to_owned())
    } else {
        None
    }
}

/// What `s` reads lower-cased.
pub uninterp spec fn lower_of(s: Seq<char>) -> Seq<char>;

/// What `s` reads with leading and trailing white space taken off.
pub uninterp spec fn trim_of(s: Seq<char>) -> Seq<char>;

/// Relies on str::to_lowercase: the lower-case equivalent of `s`, which
/// depends on its characters alone.
#[verifier::external_body]
fn lowercase(s: &str) -> (r: String)
    ensures
        r@ == lower_of(s@),
{
    s.to_lowercase()
}

/// Relies on str::trim: `s` without leading and trailing white space, as
/// Unicode defines it.
#[verifier::external_body]
fn trim(s: &str) -> (r: &str)
    ensures
        r@ == trim_of(s@),
{
    s.trim()
}

/// The command a chat message names: its first word, lower-cased, with
/// surrounding white space taken off.
pub fn command_in(content: &str) -> (r: Option<Command>)
    ensures
        r == command_of(first_piece(trim_of(lower_of(content@)))),
{
    let lower = lowercase(content);
    let word = first_word(trim(lower.as_str()));
    Command::from_str(word.as_str())
}

/// The argument of a command message: its second word, after surrounding
/// white space is taken off.
pub fn argument_in(content: &str) -> (r: Option<String>)
    ensures
        r matches Some(a) ==> (after_space(trim_of(content@)) matches Some(rest) && a@
            == first_piece(rest)),
        r is None ==> after_space(trim_of(content@)) is None,
{
    match after_first_space(trim(content)) {
        Some(rest) => Some(first_word(rest.as_str())),
        None => None,
    }
}

} // verus!
