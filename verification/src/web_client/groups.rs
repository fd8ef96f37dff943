//! Groups, and invitations to them.
use vstd::prelude::*;
use vstd::string::*;

use crate::codec::random_bytes;
use crate::storage::rows::GroupInviteRow;
use crate::storage::rows::GroupMemberRow;
use crate::storage::rows::GroupRow;
use crate::text::blank;
use crate::text::contains;
use crate::text::copy_all;
use crate::text::copy_opt;
use crate::text::is_blank;
use crate::text::join;
use crate::text::same;
use crate::text::texts;
use crate::web_client::api::api_error;
use crate::web_client::api::refusal;
use crate::web_client::api::refused_as;
use crate::web_client::api::ApiError;
use crate::web_client::api::ErrorView;
use crate::web_client::api::BAD_REQUEST;
use crate::web_client::api::NOT_FOUND;
use crate::web_client::meta::address;
use crate::web_client::meta::addressed;
use crate::web_client::meta::group_invite;
use crate::web_client::meta::group_invite_meta;
use crate::web_client::meta::MetaToSend;
use crate::web_client::meta::PeerMeta;

verus! {

/// A wish to found a group.
#[derive(Debug)]
pub struct CreateGroupRequest {
    pub group_id: String,
    pub member_ids: Vec<String>,
    pub message: Option<String>,
}

/// A wish to invite somebody to a group.
#[derive(Debug)]
pub struct AddGroupMemberRequest {
    pub peer_id: String,
    pub message: Option<String>,
}

/// Which invitations are listed.
#[derive(Debug)]
pub struct ListGroupInvitesQuery {
    pub status: Option<String>,
    pub direction: Option<String>,
}

/// Whether a row holds an invitation of the local peer that awaits an answer.
pub open spec fn is_invite(
    row: GroupInviteRow,
    group_id: String,
    own_id: String,
    to: Seq<char>,
    message: Option<String>,
    now: u64,
) -> bool {
    &&& row.id == 0
    &&& row.group_id == group_id
    &&& row.from_peer_id == own_id
    &&& row.to_peer_id@ == to
    &&& row.status@ == "pending"@
    &&& row.message == message
    &&& row.direction@ == "outgoing"@
    &&& row.created_at == now
    &&& row.updated_at == now
}

/// The row of an invitation.
fn invite_row(
    group_id: &String,
    own_id: &String,
    to: &String,
    message: &Option<String>,
    now: u64,
) -> (r: GroupInviteRow)
    ensures
        is_invite(r, *group_id, *own_id, to@, *message, now),
{
    GroupInviteRow {
        id: 0,
        group_id: group_id.clone(),
        from_peer_id: own_id.clone(),
        to_peer_id: to.clone(),
        status: "pending".to_owned(),
        message: copy_opt(message),
        direction: "outgoing".to_owned(),
        created_at: now,
        updated_at: now,
    }
}

/// Those of a list but for one.
pub open spec fn without(list: Seq<Seq<char>>, who: Seq<char>) -> Seq<Seq<char>>
    decreases list.len(),
{
    if list.len() == 0 {
        Seq::empty()
    } else {
        let before = without(list.drop_last(), who);
        if list.last() == who {
            before
        } else {
            before.push(list.last())
        }
    }
}

/// A group to be founded.
pub struct GroupPlan {
    pub group: GroupRow,
    /// The founder, who is the only member to begin with.
    pub founder: GroupMemberRow,
    /// An invitation for everybody else.
    pub invites: Vec<GroupInviteRow>,
}

/// Whether `plan` founds the group that is asked for: its founder as the only member, and an
/// invitation for each of the others.
pub open spec fn founds(
    plan: GroupPlan,
    req: CreateGroupRequest,
    own_id: String,
    group_key: Seq<u8>,
    now: u64,
) -> bool {
    let others = without(texts(req.member_ids@), own_id@);
    &&& plan.group.group_id == req.group_id
    &&& plan.group.group_key@ == group_key
    &&& plan.group.creator_id == own_id
    &&& plan.group.created_at == now
    &&& plan.group.key_version == 1
    &&& plan.founder.group_id == req.group_id
    &&& plan.founder.peer_id == own_id
    &&& plan.founder.joined_at == now
    &&& plan.invites@.len() == others.len()
    &&& forall|i: int|
        0 <= i < others.len() ==> is_invite(
            #[trigger] plan.invites@[i],
            req.group_id,
            own_id,
            others[i],
            req.message,
            now,
        )
}

/// Founds a group under a key that was drawn for it. A group needs a name.
pub fn plan_group(
    req: &CreateGroupRequest,
    own_id: &String,
    group_key: Vec<u8>,
    now: u64,
) -> (r: Result<GroupPlan, ApiError>)
    ensures
        if blank(req.group_id@) {
            refused_as(r, refusal(BAD_REQUEST, "group_id cannot be empty"@))
        } else {
            r is Ok && founds(r->Ok_0, *req, *own_id, group_key@, now)
        },
{
    if is_blank(req.group_id.as_str()) {
        return Err(api_error(BAD_REQUEST, "group_id cannot be empty"));
    }
    let group = GroupRow {
        group_id: req.group_id.clone(),
        group_key,
        creator_id: own_id.clone(),
        created_at: now,
        key_version: 1,
    };
    let founder = GroupMemberRow {
        group_id: req.group_id.clone(),
        peer_id: own_id.clone(),
        joined_at: now,
    };
    let mut invites: Vec<GroupInviteRow> = Vec::new();
    let mut i: usize = 0;
    let ghost names = texts(req.member_ids@);
    proof {
        assert(names.take(0) =~= Seq::empty());
    }
    while i < req.member_ids.len()
        invariant
            i <= req.member_ids@.len(),
            names == texts(req.member_ids@),
            invites@.len() == without(names.take(i as int), own_id@).len(),
            forall|k: int|
                0 <= k < invites@.len() ==> is_invite(
                    #[trigger] invites@[k],
                    req.group_id,
                    *own_id,
                    without(names.take(i as int), own_id@)[k],
                    req.message,
                    now,
                ),
        decreases req.member_ids@.len() - i,
    {
        let member = &req.member_ids[i];
        proof {
            assert(names.take(i + 1).drop_last() =~= names.take(i as int));
            assert(names.take(i + 1).last() == member@);
        }
        if !same(member.as_str(), own_id.as_str()) {
            invites.push(invite_row(&req.group_id, own_id, member, &req.message, now));
        }
        i = i + 1;
    }
    proof {
        assert(names.take(i as int) =~= names);
    }
    Ok(GroupPlan { group, founder, invites })
}

/// Founds a group with a key of its own, drawn at random. A group needs a name.
pub fn create_group(req: &CreateGroupRequest, own_id: &String, now: u64) -> (r: Result<
    GroupPlan,
    ApiError,
>)
    ensures
        if blank(req.group_id@) {
            refused_as(r, refusal(BAD_REQUEST, "group_id cannot be empty"@))
        } else {
            &&& r is Ok
            &&& founds(r->Ok_0, *req, *own_id, r->Ok_0.group.group_key@, now)
            &&& r->Ok_0.group.group_key@.len() == 32
        },
{
    plan_group(req, own_id, random_bytes(32), now)
}

/// The founder of a group is never invited to it.
pub proof fn law_founder_is_not_invited(list: Seq<Seq<char>>, who: Seq<char>)
    ensures
        !without(list, who).contains(who),
        forall|p: Seq<char>| #[trigger] list.contains(p) && p != who ==> without(list, who).contains(p),
    decreases list.len(),
{
    if list.len() > 0 {
        law_founder_is_not_invited(list.drop_last(), who);
        let before = without(list.drop_last(), who);
        let after = without(list, who);
        assert forall|p: Seq<char>| before.contains(p) implies after.contains(p) by {
            let i = choose|i: int| 0 <= i < before.len() && before[i] == p;
            assert(after[i] == p);
        }
        assert forall|p: Seq<char>| #[trigger] list.contains(p) && p != who implies after.contains(
            p,
        ) by {
            let i = choose|i: int| 0 <= i < list.len() && list[i] == p;
            if i < list.len() - 1 {
                assert(list.drop_last()[i] == p);
                assert(list.drop_last().contains(p));
            } else {
                assert(after[before.len() as int] == p);
            }
        }
        if after.contains(who) {
            let i = choose|i: int| 0 <= i < after.len() && after[i] == who;
            if i < before.len() {
                assert(before[i] == who);
            }
        }
    }
}

/// The meta message that carries an invitation.
pub fn invite_meta(invite: &GroupInviteRow) -> (r: MetaToSend)
    ensures
        addressed(r, invite.from_peer_id, invite.to_peer_id@, invite.created_at),
        r.message == group_invite_meta(invite.from_peer_id, invite.group_id, invite.message),
{
    address(
        &invite.from_peer_id,
        &invite.to_peer_id,
        invite.created_at,
        group_invite(&invite.from_peer_id, &invite.group_id, &invite.message),
    )
}

/// What is answered when a group was founded.
#[derive(Debug)]
pub struct GroupCreated {
    pub group_id: String,
    pub creator_id: String,
    pub created_at: u64,
    pub key_version: u32,
    pub members: Vec<String>,
    pub pending_invites: Vec<String>,
    /// Those that the invitation did not reach, if there are any.
    pub invite_failed: Option<Vec<String>>,
}

/// The answer when a group was founded: `recorded` are those whose invitation was kept, and
/// `failed` those of them that it did not reach.
pub fn group_created(group: &GroupRow, recorded: &Vec<String>, failed: &Vec<String>) -> (r:
    GroupCreated)
    ensures
        r.group_id == group.group_id,
        r.creator_id == group.creator_id,
        r.created_at == group.created_at,
        r.key_version == group.key_version,
        r.members@ == seq![group.creator_id],
        r.pending_invites@ == recorded@,
        match r.invite_failed {
            Some(f) => failed@.len() > 0 && f@ == failed@,
            None => failed@.len() == 0,
        },
{
    let mut members: Vec<String> = Vec::new();
    members.push(group.creator_id.clone());
    assert(members@ =~= seq![group.creator_id]);
    GroupCreated {
        group_id: group.group_id.clone(),
        creator_id: group.creator_id.clone(),
        created_at: group.created_at,
        key_version: group.key_version,
        members,
        pending_invites: copy_all(recorded),
        invite_failed: if failed.len() == 0 {
            None
        } else {
            Some(copy_all(failed))
        },
    }
}

/// Those whom the local peer has invited to a group and who have not answered yet, given its
/// pending invitations.
pub fn pending_invitees(group_id: &str, invites: &Vec<GroupInviteRow>) -> (r: Vec<String>)
    ensures
        r@ == invites@.filter(|i: GroupInviteRow| i.group_id@ == group_id@).map_values(
            |i: GroupInviteRow| i.to_peer_id,
        ),
{
    let ghost f = |i: GroupInviteRow| i.group_id@ == group_id@;
    let ghost to = |i: GroupInviteRow| i.to_peer_id;
    let mut out: Vec<String> = Vec::new();
    let mut k: usize = 0;
    proof {
        reveal(Seq::filter);
        assert(invites@.take(0) =~= Seq::empty());
        assert(out@ =~= invites@.take(0).filter(f).map_values(to));
    }
    while k < invites.len()
        invariant
            k <= invites@.len(),
            f == (|i: GroupInviteRow| i.group_id@ == group_id@),
            to == (|i: GroupInviteRow| i.to_peer_id),
            out@ == invites@.take(k as int).filter(f).map_values(to),
        decreases invites@.len() - k,
    {
        proof {
            reveal(Seq::filter);
            assert(invites@.take(k + 1).drop_last() =~= invites@.take(k as int));
            assert(invites@.take(k + 1).last() == invites@[k as int]);
        }
        if same(invites[k].group_id.as_str(), group_id) {
            out.push(invites[k].to_peer_id.clone());
            proof {
                let t = invites@.take(k as int).filter(f);
                assert(t.push(invites@[k as int]).map_values(to) =~= t.map_values(to).push(
                    invites@[k as int].to_peer_id,
                ));
            }
        }
        k = k + 1;
    }
    proof {
        assert(invites@.take(k as int) =~= invites@);
    }
    out
}

/// Decides on inviting somebody to a group: the group and the peer must be known.
pub fn add_group_member(
    req: &AddGroupMemberRequest,
    group_id: &String,
    own_id: &String,
    group_known: bool,
    peer_known: bool,
    now: u64,
) -> (r: Result<GroupInviteRow, ApiError>)
    ensures
        if blank(req.peer_id@) {
            refused_as(r, refusal(BAD_REQUEST, "peer_id cannot be empty"@))
        } else if !group_known {
            refused_as(r, refusal(NOT_FOUND, "group not found"@))
        } else if !peer_known {
            refused_as(r, refusal(NOT_FOUND, "peer not found"@))
        } else {
            r is Ok && is_invite(r->Ok_0, *group_id, *own_id, req.peer_id@, req.message, now)
        },
{
    if is_blank(req.peer_id.as_str()) {
        return Err(api_error(BAD_REQUEST, "peer_id cannot be empty"));
    }
    if !group_known {
        return Err(api_error(NOT_FOUND, "group not found"));
    }
    if !peer_known {
        return Err(api_error(NOT_FOUND, "peer not found"));
    }
    Ok(invite_row(group_id, own_id, &req.peer_id, &req.message, now))
}

/// The answer to removing a member, given whether there was one.
pub fn member_removed(removed: bool) -> (r: Result<(), ApiError>)
    ensures
        if removed {
            r is Ok
        } else {
            refused_as(r, refusal(NOT_FOUND, "group member not found"@))
        },
{
    if removed {
        Ok(())
    } else {
        Err(api_error(NOT_FOUND, "group member not found"))
    }
}

/// The answer to leaving a group, given whether the local peer was in it.
pub fn group_left(removed: bool) -> (r: Result<(), ApiError>)
    ensures
        if removed {
            r is Ok
        } else {
            refused_as(r, refusal(NOT_FOUND, "not a member of this group"@))
        },
{
    if removed {
        Ok(())
    } else {
        Err(api_error(NOT_FOUND, "not a member of this group"))
    }
}

// ---------------------------------------------------------------------------
// Invitations that came in
// ---------------------------------------------------------------------------

/// Why an invitation cannot be answered, if it cannot. `answer` is what the answer does.
pub open spec fn invite_fault(inv: Option<GroupInviteRow>, answer: Seq<char>) -> Option<ErrorView> {
    match inv {
        None => Some(refusal(NOT_FOUND, "group invite not found"@)),
        Some(row) => if row.status@ != "pending"@ {
            Some(refusal(BAD_REQUEST, "group invite is already "@ + row.status@))
        } else if row.direction@ != "incoming"@ {
            Some(refusal(BAD_REQUEST, "can only "@ + answer + " incoming group invites"@))
        } else {
            None
        },
    }
}

fn check_invite<'a>(inv: &'a Option<GroupInviteRow>, answer: &str) -> (r: Result<
    &'a GroupInviteRow,
    ApiError,
>)
    ensures
        match invite_fault(*inv, answer@) {
            Some(e) => r matches Err(x) && x@ == e,
            None => r matches Ok(row) && inv == Some(*row),
        },
{
    match inv {
        None => Err(api_error(NOT_FOUND, "group invite not found")),
        Some(row) => {
            if !same(row.status.as_str(), "pending") {
                return Err(
                    ApiError {
                        status: BAD_REQUEST,
                        message: join("group invite is already ", row.status.as_str()),
                    },
                );
            }
            if !same(row.direction.as_str(), "incoming") {
                let mut message = join("can only ", answer);
                message.append(" incoming group invites");
                return Err(ApiError { status: BAD_REQUEST, message });
            }
            Ok(row)
        },
    }
}

/// Decides on accepting an invitation; the one who invited is told.
pub fn accept_group_invite(inv: &Option<GroupInviteRow>, own_id: &String, now: u64) -> (r: Result<
    MetaToSend,
    ApiError,
>)
    ensures
        match invite_fault(*inv, "accept"@) {
            Some(e) => refused_as(r, e),
            None => {
                &&& r is Ok
                &&& addressed(r->Ok_0, *own_id, inv->0.from_peer_id@, now)
                &&& r->Ok_0.message == (PeerMeta::GroupInviteAccept {
                    peer_id: *own_id,
                    group_id: inv->0.group_id,
                })
            },
        },
{
    match check_invite(inv, "accept") {
        Err(e) => Err(e),
        Ok(row) => Ok(
            address(
                own_id,
                &row.from_peer_id,
                now,
                PeerMeta::GroupInviteAccept {
                    peer_id: own_id.clone(),
                    group_id: row.group_id.clone(),
                },
            ),
        ),
    }
}

/// Decides on ignoring an invitation.
pub fn ignore_group_invite(inv: &Option<GroupInviteRow>) -> (r: Result<(), ApiError>)
    ensures
        match invite_fault(*inv, "ignore"@) {
            Some(e) => refused_as(r, e),
            None => r is Ok,
        },
{
    match check_invite(inv, "ignore") {
        Err(e) => Err(e),
        Ok(_) => Ok(()),
    }
}

} // verus!
