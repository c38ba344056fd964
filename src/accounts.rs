//! Per-participant records: external game ids and custom team names.

use vstd::prelude::*;

use crate::error::Error;
use crate::session::Lobby;

verus! {

broadcast use vstd::std_specs::hash::group_hash_axioms;

/// What an external game id looks like: a name and a tag around a `#`.
pub const RIOT_ID_PATTERN: &'static str = "\\w+#\\w+";

/// Longest custom team name, in bytes.
pub const TEAM_NAME_MAX_BYTES: usize = 18;

/// Whether the regular expression `pattern` compiles.
pub uninterp spec fn regex_compiles(pattern: Seq<char>) -> bool;

/// Whether `text` holds a match of the compiled regular expression
/// `pattern` anywhere.
pub uninterp spec fn regex_finds(pattern: Seq<char>, text: Seq<char>) -> bool;

/// Relies on regex::Regex::new, which compiles `pattern` or reports an
/// error, and on regex::Regex::is_match, which says whether `text` holds a
/// match anywhere; both depend on their arguments alone.
#[verifier::external_body]
fn regex_is_match(pattern: &str, text: &str) -> (r: Option<bool>)
    ensures
        r is Some <==> regex_compiles(pattern@),
        r matches Some(b) ==> b == regex_finds(pattern@, text@),
{
    match regex::Regex::new(pattern) {
        Ok(re) => Some(re.is_match(text)),
        Err(_) => None,
    }
}

/// Whether `text` has the shape of an external game id.
pub fn riot_id_well_formed(text: &str) -> (r: bool)
    ensures
        r == (regex_compiles(RIOT_ID_PATTERN@) && regex_finds(RIOT_ID_PATTERN@, text@)),
{
    match regex_is_match(RIOT_ID_PATTERN, text) {
        Some(b) => b,
        None => false,
    }
}

impl Lobby {
    /// `self` and `other` differ at most in their external game ids.
    pub open spec fn same_but_riot_ids(&self, other: &Lobby) -> bool {
        &&& self.queue == other.queue
        &&& self.maps == other.maps
        &&& self.session == other.session
        &&& self.team_names@ == other.team_names@
    }

    /// `self` and `other` differ at most in their custom team names.
    pub open spec fn same_but_team_names(&self, other: &Lobby) -> bool {
        &&& self.queue == other.queue
        &&& self.maps == other.maps
        &&& self.session == other.session
        &&& self.riot_ids@ == other.riot_ids@
    }

    /// Records `id` as `actor`'s external game id when `well_formed` says it
    /// has the right shape, replacing an earlier one.
    pub fn record_riot_id(&mut self, actor: u64, id: &str, well_formed: bool) -> (r: Result<
        (),
        Error,
    >)
        requires
            old(self).wf(),
        ensures
            final(self).wf(),
            r is Ok <==> well_formed,
            r is Err ==> r == Err::<(), Error>(Error::InvalidRiotId) && *final(self) == *old(self),
            r is Ok ==> final(self).riot_ids@ == old(self).riot_ids@.insert(
                actor,
                final(self).riot_ids@[actor],
            ) && final(self).riot_ids@[actor]@ == id@ && final(self).same_but_riot_ids(old(self)),
    {
        if !well_formed {
            return Err(Error::InvalidRiotId);
        }
        self.riot_ids.insert(actor, id.to_owned());
        Ok(())
    }

    /// Records `id` as `actor`'s external game id if it has the shape
    /// `name#tag`, replacing an earlier one.
    pub fn set_riot_id(&mut self, actor: u64, id: &str) -> (r: Result<(), Error>)
        requires
            old(self).wf(),
        ensures
            final(self).wf(),
            r is Ok <==> regex_compiles(RIOT_ID_PATTERN@) && regex_finds(RIOT_ID_PATTERN@, id@),
            r is Err ==> r == Err::<(), Error>(Error::InvalidRiotId) && *final(self) == *old(self),
            r is Ok ==> final(self).riot_ids@ == old(self).riot_ids@.insert(
                actor,
                final(self).riot_ids@[actor],
            ) && final(self).riot_ids@[actor]@ == id@ && final(self).same_but_riot_ids(old(self)),
    {
        let ok = riot_id_well_formed(id);
        self.record_riot_id(actor, id, ok)
    }

    /// Records `name` as the custom name of the team that `actor` leads,
    /// replacing an earlier one. An empty name or one over eighteen bytes is
    /// refused.
    pub fn set_team_name(&mut self, actor: u64, name: &str) -> (r: Result<(), Error>)
        requires
            old(self).wf(),
        ensures
            final(self).wf(),
            r is Err ==> *final(self) == *old(self),
            name@.len() == 0 ==> r == Err::<(), Error>(Error::MissingArgument),
            name@.len() > 0 && name.len() > TEAM_NAME_MAX_BYTES ==> r == Err::<(), Error>(
                Error::TeamNameTooLong,
            ),
            r is Ok <==> name@.len() > 0 && name.len() <= TEAM_NAME_MAX_BYTES,
            r is Ok ==> final(self).team_names@ == old(self).team_names@.insert(
                actor,
                final(self).team_names@[actor],
            ) && final(self).team_names@[actor]@ == name@ && final(self).same_but_team_names(
                old(self),
            ),
    {
        if name.is_empty() {
            return Err(Error::MissingArgument);
        }
        if name.len() > TEAM_NAME_MAX_BYTES {
            return Err(Error::TeamNameTooLong);
        }
        self.team_names.insert(actor, name.to_owned());
        Ok(())
    }

    /// The name shown for the team that `captain` leads: their custom team
    /// name if they set one, else `fallback` (their display name).
    pub fn team_name(&self, captain: u64, fallback: &str) -> (r: String)
        ensures
            self.team_names@.contains_key(captain) ==> r@ == self.team_names@[captain]@,
            !self.team_names@.contains_key(captain) ==> r@ == fallback@,
    {
        match self.team_names.get(&captain) {
            Some(n) => n.clone(),
            None => fallback.to_owned(),
        }
    }

    /// `actor`'s external game id, if known.
    pub fn riot_id(&self, actor: u64) -> (r: Option<String>)
        ensures
            r is Some <==> self.riot_ids@.contains_key(actor),
            r matches Some(s) ==> s@ == self.riot_ids@[actor]@,
    {
        match self.riot_ids.get(&actor) {
            Some(s) => Some(s.clone()),
            None => None,
        }
    }
}

} // verus!
