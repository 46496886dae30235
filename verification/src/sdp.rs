//! Reading SDP texts line by line.
//!
//! A trickle-ICE fragment and a session description are lists of lines
//! ended by CR LF. What the relay needs from them are the values behind a
//! few prefixes: the ICE user name fragment, the ICE password and the
//! candidates.

use vstd::prelude::*;
use crate::error::{Error, ErrorView};
use crate::text::{occurs_at, same_text, split, split_on, strip_prefix, texts_of, without_prefix};

verus! {

/// How many lines with a given prefix a text must hold.
#[allow(non_camel_case_types)]
#[derive(Debug, Clone, Copy, PartialEq, Eq)]
pub enum ExpectedFields {
    /// No such line.
    NONE,
    /// Exactly this many.
    N(usize),
    /// At least one.
    MANY,
}

impl ExpectedFields {
    /// `count` lines are what is expected.
    pub open spec fn admits(self, count: nat) -> bool {
        match self {
            ExpectedFields::NONE => count == 0,
            ExpectedFields::N(n) => count == n,
            ExpectedFields::MANY => count > 0,
        }
    }
}

/// The step that takes `prefix` from the front of a line, for the lines
/// that begin with it.
pub open spec fn behind(prefix: Seq<char>) -> spec_fn(Seq<char>) -> Option<Seq<char>> {
    |line: Seq<char>| without_prefix(line, prefix)
}

/// The values of a field: of the lines that begin with `prefix`, in their
/// order, what stands behind the prefix.
pub open spec fn field_values(lines: Seq<Seq<char>>, prefix: Seq<char>) -> Seq<Seq<char>> {
    lines.filter_map(behind(prefix))
}

/// `field_values` of a list with one more line at its end.
pub proof fn lemma_field_values_push(lines: Seq<Seq<char>>, line: Seq<char>, prefix: Seq<char>)
    ensures
        field_values(lines.push(line), prefix) == match without_prefix(line, prefix) {
            Some(value) => field_values(lines, prefix).push(value),
            None => field_values(lines, prefix),
        },
{
    let longer = lines.push(line);
    assert(longer.drop_last() =~= lines);
    assert(longer.last() == line);
    match without_prefix(line, prefix) {
        Some(value) => {
            assert(field_values(lines, prefix) + seq![value] =~= field_values(lines, prefix).push(
                value,
            ));
        },
        None => {},
    }
}

/// Collects the values of the field `prefix` from `lines`, in their order.
pub fn collect_field<'a>(lines: &Vec<&'a str>, prefix: &str) -> (values: Vec<&'a str>)
    ensures
        texts_of(values@) == field_values(texts_of(lines@), prefix@),
{
    let mut values: Vec<&'a str> = Vec::new();
    let ghost all = texts_of(lines@);
    let mut i: usize = 0;
    proof {
        assert(texts_of(values@) =~= field_values(all.take(0), prefix@));
    }
    while i < lines.len()
        invariant
            i <= lines.len(),
            all == texts_of(lines@),
            texts_of(values@) == field_values(all.take(i as int), prefix@),
        decreases lines.len() - i,
    {
        let line: &'a str = lines[i];
        let rest = strip_prefix(line, prefix);
        proof {
            assert(all.take(i + 1) =~= all.take(i as int).push(all[i as int]));
            lemma_field_values_push(all.take(i as int), all[i as int], prefix@);
        }
        match rest {
            Some(value) => {
                proof {
                    assert(texts_of(values@.push(value)) =~= texts_of(values@).push(value@));
                }
                values.push(value);
            },
            None => {},
        }
        i += 1;
    }
    proof {
        assert(all.take(lines.len() as int) =~= all);
    }
    values
}

/// Tells whether `count` lines are what `expects` asks for.
pub fn count_is_expected(expects: ExpectedFields, count: usize) -> (admitted: bool)
    ensures
        admitted == expects.admits(count as nat),
{
    match expects {
        ExpectedFields::NONE => count == 0,
        ExpectedFields::N(n) => count == n,
        ExpectedFields::MANY => count != 0,
    }
}

/// Collects the values of the field `prefix` from `lines` and holds their
/// number against `expects`. Where the number is not the expected one the
/// text is malformed.
pub fn extract_field<'a>(lines: &Vec<&'a str>, prefix: &str, expects: ExpectedFields) -> (found:
    Result<Vec<&'a str>, Error>)
    ensures
        match found {
            Ok(values) => {
                &&& texts_of(values@) == field_values(texts_of(lines@), prefix@)
                &&& expects.admits(values@.len())
            },
            Err(error) => {
                &&& error@ == ErrorView::InternalError("SDP malformed"@)
                &&& !expects.admits(field_values(texts_of(lines@), prefix@).len())
            },
        },
{
    let values = collect_field(lines, prefix);
    proof {
        assert(texts_of(values@).len() == values@.len());
    }
    if count_is_expected(expects, values.len()) {
        Ok(values)
    } else {
        Err(Error::malformed_sdp())
    }
}

/// [`extract_field`] for a caller that gives its lines away.
pub fn extract_sdp_field<'a>(lines: Vec<&'a str>, prefix: &'a str, expects: ExpectedFields) -> (found:
    Result<Vec<&'a str>, Error>)
    ensures
        match found {
            Ok(values) => {
                &&& texts_of(values@) == field_values(texts_of(lines@), prefix@)
                &&& expects.admits(values@.len())
            },
            Err(error) => {
                &&& error@ == ErrorView::InternalError("SDP malformed"@)
                &&& !expects.admits(field_values(texts_of(lines@), prefix@).len())
            },
        },
{
    extract_field(&lines, prefix, expects)
}

/// The lines of an SDP text: what stands between its CR LF pairs.
pub open spec fn sdp_lines(text: Seq<char>) -> Seq<Seq<char>> {
    split_on(text, "\r\n"@)
}

/// Cuts an SDP text into its lines.
pub fn split_lines<'a>(text: &'a str) -> (lines: Vec<&'a str>)
    ensures
        texts_of(lines@) == sdp_lines(text@),
{
    split(text, "\r\n")
}

/// The ICE user name fragment and password of one side of a session.
#[derive(Debug, Clone, Copy, PartialEq, Eq)]
pub struct IceCredentials<'a> {
    pub ufrag: &'a str,
    pub pwd: &'a str,
}

/// [`IceCredentials`] as sequences of characters.
pub struct IceCredentialsView {
    pub ufrag: Seq<char>,
    pub pwd: Seq<char>,
}

impl<'a> View for IceCredentials<'a> {
    type V = IceCredentialsView;

    open spec fn view(&self) -> IceCredentialsView {
        IceCredentialsView { ufrag: self.ufrag@, pwd: self.pwd@ }
    }
}

impl<'a> IceCredentials<'a> {
    /// Tells whether both the user name fragment and the password are
    /// the same as the other side's.
    pub fn same_as(&self, other: &IceCredentials) -> (same: bool)
        ensures
            same == (self@ == other@),
    {
        same_text(self.ufrag, other.ufrag) && same_text(self.pwd, other.pwd)
    }
}

/// The credentials that a trickle-ICE fragment carries: it must hold
/// exactly one `a=ice-ufrag:` line and exactly one `a=ice-pwd:` line.
pub open spec fn offered_credentials(lines: Seq<Seq<char>>) -> Option<IceCredentialsView> {
    let ufrags = field_values(lines, "a=ice-ufrag:"@);
    let pwds = field_values(lines, "a=ice-pwd:"@);
    if ufrags.len() == 1 && pwds.len() == 1 {
        Some(IceCredentialsView { ufrag: ufrags[0], pwd: pwds[0] })
    } else {
        None
    }
}

/// The credentials in force in a session description: the first
/// `a=ice-ufrag:` line and the first `a=ice-pwd:` line; there must be at
/// least one of each.
pub open spec fn current_credentials(lines: Seq<Seq<char>>) -> Option<IceCredentialsView> {
    let ufrags = field_values(lines, "a=ice-ufrag:"@);
    let pwds = field_values(lines, "a=ice-pwd:"@);
    if ufrags.len() > 0 && pwds.len() > 0 {
        Some(IceCredentialsView { ufrag: ufrags[0], pwd: pwds[0] })
    } else {
        None
    }
}

/// Reads the credentials that a trickle-ICE fragment carries. A fragment
/// that lacks one of the two lines, or repeats one, is malformed.
pub fn read_offered_credentials<'a>(lines: &Vec<&'a str>) -> (found: Result<
    IceCredentials<'a>,
    Error,
>)
    ensures
        match found {
            Ok(credentials) => offered_credentials(texts_of(lines@)) == Some(credentials@),
            Err(error) => {
                &&& error@ == ErrorView::InternalError("SDP malformed"@)
                &&& offered_credentials(texts_of(lines@)) is None
            },
        },
{
    let ufrags = match extract_field(lines, "a=ice-ufrag:", ExpectedFields::N(1)) {
        Ok(values) => values,
        Err(error) => {
            return Err(error);
        },
    };
    let pwds = match extract_field(lines, "a=ice-pwd:", ExpectedFields::N(1)) {
        Ok(values) => values,
        Err(error) => {
            return Err(error);
        },
    };
    proof {
        assert(texts_of(ufrags@)[0] == ufrags@[0]@);
        assert(texts_of(pwds@)[0] == pwds@[0]@);
    }
    Ok(IceCredentials { ufrag: ufrags[0], pwd: pwds[0] })
}

/// Reads the credentials in force from the lines of a session
/// description. A description without an `a=ice-ufrag:` line or without
/// an `a=ice-pwd:` line is malformed.
pub fn read_current_credentials<'a>(lines: &Vec<&'a str>) -> (found: Result<
    IceCredentials<'a>,
    Error,
>)
    ensures
        match found {
            Ok(credentials) => current_credentials(texts_of(lines@)) == Some(credentials@),
            Err(error) => {
                &&& error@ == ErrorView::InternalError("SDP malformed"@)
                &&& current_credentials(texts_of(lines@)) is None
            },
        },
{
    let ufrags = match extract_field(lines, "a=ice-ufrag:", ExpectedFields::MANY) {
        Ok(values) => values,
        Err(error) => {
            return Err(error);
        },
    };
    let pwds = match extract_field(lines, "a=ice-pwd:", ExpectedFields::MANY) {
        Ok(values) => values,
        Err(error) => {
            return Err(error);
        },
    };
    proof {
        assert(texts_of(ufrags@)[0] == ufrags@[0]@);
        assert(texts_of(pwds@)[0] == pwds@[0]@);
    }
    Ok(IceCredentials { ufrag: ufrags[0], pwd: pwds[0] })
}

/// The step that takes the attribute mark `a=` from the front of a
/// candidate line, for the lines that begin with `a=candidate:`.
pub open spec fn as_candidate() -> spec_fn(Seq<char>) -> Option<Seq<char>> {
    |line: Seq<char>|
        if occurs_at(line, "a=candidate:"@, 0) {
            Some(line.skip(2))
        } else {
            None
        }
}

/// The candidates of a trickle-ICE fragment: of the lines that begin with
/// `a=candidate:`, in their order, what stands behind the `a=`.
pub open spec fn candidates(lines: Seq<Seq<char>>) -> Seq<Seq<char>> {
    lines.filter_map(as_candidate())
}

/// A line that begins with `a=candidate:` begins with `a=`, which is two
/// characters long.
proof fn lemma_candidate_line_begins_with_attribute_mark(line: Seq<char>)
    requires
        occurs_at(line, "a=candidate:"@, 0),
    ensures
        without_prefix(line, "a="@) == Some(line.skip(2)),
{
    reveal_strlit("a=");
    reveal_strlit("a=candidate:");
    assert(line.subrange(0, 2) =~= line.subrange(0, 12).subrange(0, 2));
    assert("a=candidate:"@.subrange(0, 2) =~= "a="@);
}

/// Collects the candidates of a trickle-ICE fragment from its lines.
pub fn collect_candidates<'a>(lines: &Vec<&'a str>) -> (found: Vec<&'a str>)
    ensures
        texts_of(found@) == candidates(texts_of(lines@)),
{
    let mut found: Vec<&'a str> = Vec::new();
    let ghost all = texts_of(lines@);
    let mut i: usize = 0;
    proof {
        assert(texts_of(found@) =~= candidates(all.take(0)));
    }
    while i < lines.len()
        invariant
            i <= lines.len(),
            all == texts_of(lines@),
            texts_of(found@) == candidates(all.take(i as int)),
        decreases lines.len() - i,
    {
        let line: &'a str = lines[i];
        let marked = strip_prefix(line, "a=candidate:").is_some();
        let stripped = strip_prefix(line, "a=");
        proof {
            let longer = all.take(i + 1);
            assert(longer.drop_last() =~= all.take(i as int));
            assert(longer.last() == line@);
            if marked {
                lemma_candidate_line_begins_with_attribute_mark(line@);
                assert(candidates(longer) =~= candidates(all.take(i as int)).push(line@.skip(2)));
            }
        }
        if marked {
            if let Some(candidate) = stripped {
                proof {
                    assert(texts_of(found@.push(candidate)) =~= texts_of(found@).push(
                        candidate@,
                    ));
                }
                found.push(candidate);
            }
        }
        i += 1;
    }
    proof {
        assert(all.take(lines.len() as int) =~= all);
    }
    found
}

/// A candidate as it is handed to the peer connection.
#[derive(Debug, Clone, PartialEq, Eq)]
pub struct IceCandidateInit<'a> {
    /// The candidate line without its attribute mark.
    pub candidate: &'a str,
    /// The id of the media description that the candidate belongs to.
    pub sdp_mid: Option<String>,
    /// The index of that media description.
    pub sdp_mline_index: Option<u16>,
    /// The user name fragment that the candidate belongs to.
    pub username_fragment: Option<String>,
}

/// Readies a candidate of a trickle-ICE fragment for the peer connection.
/// A trickled candidate names no media description and no user name
/// fragment.
pub fn candidate_init<'a>(candidate: &'a str) -> (init: IceCandidateInit<'a>)
    ensures
        init.candidate@ == candidate@,
        init.sdp_mid is None,
        init.sdp_mline_index is None,
        init.username_fragment is None,
{
    IceCandidateInit { candidate, sdp_mid: None, sdp_mline_index: None, username_fragment: None }
}

/// What the relay does with a trickle-ICE fragment.
#[derive(Debug, Clone, PartialEq, Eq)]
pub enum PatchAction<'a> {
    /// Hand each of these candidates to the peer connection, in this
    /// order, and stop at the first that the peer connection refuses.
    AddCandidates(Vec<&'a str>),
    /// Ask the peer connection to restart ICE. No candidate is added.
    RestartIce,
}

/// A [`PatchAction`] with its candidates as sequences of characters.
pub enum PatchActionView {
    AddCandidates(Seq<Seq<char>>),
    RestartIce,
}

impl<'a> View for PatchAction<'a> {
    type V = PatchActionView;

    open spec fn view(&self) -> PatchActionView {
        match self {
            PatchAction::AddCandidates(list) => PatchActionView::AddCandidates(texts_of(list@)),
            PatchAction::RestartIce => PatchActionView::RestartIce,
        }
    }
}

/// The action that a fragment with the credentials `offered` calls for in
/// a session whose credentials are `current`: its candidates are added
/// where both the user name fragment and the password are the session's,
/// and ICE is restarted where either differs.
pub open spec fn action_for(
    offered: IceCredentialsView,
    current: IceCredentialsView,
    lines: Seq<Seq<char>>,
) -> PatchActionView {
    if offered == current {
        PatchActionView::AddCandidates(candidates(lines))
    } else {
        PatchActionView::RestartIce
    }
}

/// Decides what to do with a trickle-ICE fragment, given its lines, the
/// credentials it carries and the credentials of the session.
pub fn decide_patch<'a>(
    offered: &IceCredentials,
    current: &IceCredentials,
    lines: &Vec<&'a str>,
) -> (action: PatchAction<'a>)
    ensures
        action@ == action_for(offered@, current@, texts_of(lines@)),
        offered@ != current@ ==> action == PatchAction::<'a>::RestartIce,
{
    if offered.same_as(current) {
        PatchAction::AddCandidates(collect_candidates(lines))
    } else {
        PatchAction::RestartIce
    }
}

/// A trickle-ICE fragment that has been read: its lines and the
/// credentials they carry.
#[derive(Debug, Clone, PartialEq, Eq)]
pub struct TricklePatch<'a> {
    pub lines: Vec<&'a str>,
    pub credentials: IceCredentials<'a>,
}

/// Reads a trickle-ICE fragment. It must hold exactly one `a=ice-ufrag:`
/// line and exactly one `a=ice-pwd:` line; lines of other kinds are kept
/// and ignored.
pub fn read_patch<'a>(fragment: &'a str) -> (read: Result<TricklePatch<'a>, Error>)
    ensures
        match read {
            Ok(patch) => {
                &&& texts_of(patch.lines@) == sdp_lines(fragment@)
                &&& offered_credentials(sdp_lines(fragment@)) == Some(patch.credentials@)
            },
            Err(error) => {
                &&& error@ == ErrorView::InternalError("SDP malformed"@)
                &&& offered_credentials(sdp_lines(fragment@)) is None
            },
        },
{
    let lines = split_lines(fragment);
    match read_offered_credentials(&lines) {
        Ok(credentials) => Ok(TricklePatch { lines, credentials }),
        Err(error) => Err(error),
    }
}

/// What a fragment calls for in a session whose remote description is
/// `description`; `None` where the description names no credentials.
pub open spec fn patch_plan(
    offered: IceCredentialsView,
    lines: Seq<Seq<char>>,
    description: Seq<char>,
) -> Option<PatchActionView> {
    match current_credentials(sdp_lines(description)) {
        Some(current) => Some(action_for(offered, current, lines)),
        None => None,
    }
}

/// Decides what to do with a trickle-ICE fragment in a session whose
/// remote description is `remote_description`. The description's first
/// `a=ice-ufrag:` and `a=ice-pwd:` lines are the session's credentials;
/// one without them is malformed.
pub fn plan_patch<'a>(patch: &TricklePatch<'a>, remote_description: &str) -> (plan: Result<
    PatchAction<'a>,
    Error,
>)
    ensures
        match plan {
            Ok(action) => patch_plan(
                patch.credentials@,
                texts_of(patch.lines@),
                remote_description@,
            ) == Some(action@),
            Err(error) => {
                &&& error@ == ErrorView::InternalError("SDP malformed"@)
                &&& patch_plan(patch.credentials@, texts_of(patch.lines@), remote_description@)
                    is None
            },
        },
        current_credentials(sdp_lines(remote_description@)) matches Some(current) ==> (
        patch.credentials@ != current ==> plan == Ok::<PatchAction<'a>, Error>(
            PatchAction::RestartIce,
        )),
{
    let described = split_lines(remote_description);
    match read_current_credentials(&described) {
        Ok(current) => Ok(decide_patch(&patch.credentials, &current, &patch.lines)),
        Err(error) => Err(error),
    }
}

} // verus!
