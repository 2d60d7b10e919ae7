use vstd::prelude::*;

verus! {

/// Why a request on a channel or a guild is turned down.
#[derive(Clone, Copy, Debug, PartialEq, Eq, Structural)]
pub enum ApiError {
    /// The channel holds as many pinned messages as it may.
    MaxPinsReached,
    /// There is no such guild.
    InvalidGuild,
    /// The caller is no member of the guild.
    MemberNotFound,
}

/// Whether one more message may be pinned in a channel that has
/// `pinned_count` pinned messages and may have `max_pins`: it may not once
/// the count has reached the limit.
pub fn check_pin_limit(pinned_count: i32, max_pins: u16) -> (result: Result<(), ApiError>)
    ensures
        pinned_count < max_pins ==> result is Ok,
        pinned_count >= max_pins ==> result == Err::<(), ApiError>(ApiError::MaxPinsReached),
{
    if pinned_count >= max_pins as i32 {
        Err(ApiError::MaxPinsReached)
    } else {
        Ok(())
    }
}

/// Whether the caller may act on a guild: the guild must be there, and the
/// caller must be a member of it. `is_member` counts only where the guild
/// was found.
pub fn check_guild_access(guild_found: bool, is_member: bool) -> (result: Result<(), ApiError>)
    ensures
        !guild_found ==> result == Err::<(), ApiError>(ApiError::InvalidGuild),
        guild_found && !is_member ==> result == Err::<(), ApiError>(ApiError::MemberNotFound),
        guild_found && is_member ==> result is Ok,
{
    if !guild_found {
        Err(ApiError::InvalidGuild)
    } else if !is_member {
        Err(ApiError::MemberNotFound)
    } else {
        Ok(())
    }
}

/// A vanity invite of a guild as it is stored.
#[derive(Clone, Debug, PartialEq, Eq)]
pub struct VanityInvite {
    pub code: String,
    pub uses: Option<u32>,
}

/// The answer to a request for a guild's vanity invite.
#[derive(Clone, Debug, PartialEq, Eq)]
pub struct VanityReply {
    /// The HTTP status of the answer.
    pub status: u16,
    pub code: String,
    pub uses: Option<u32>,
}

/// HTTP status of an answer that holds what was asked for.
pub const STATUS_OK: u16 = 200;

/// HTTP status of an answer that has nothing to show.
pub const STATUS_NOT_FOUND: u16 = 404;

/// Whether the vanity invite of a guild is looked up at all: only where the
/// guild does not have aliasable names.
pub fn looks_up_vanity(aliasable_names: bool) -> (lookup: bool)
    ensures
        lookup == !aliasable_names,
{
    !aliasable_names
}

/// The answer to a request for a guild's vanity invite. A guild without
/// aliasable names that has an invite is answered with it, under status 200.
/// Every other guild is answered with an empty code and no uses, under
/// status 404.
pub fn vanity_reply(aliasable_names: bool, invite: Option<VanityInvite>) -> (reply: VanityReply)
    ensures
        !aliasable_names && invite is Some ==> reply.status == 200 && reply.code@
            == invite->0.code@ && reply.uses == invite->0.uses,
        aliasable_names || invite is None ==> reply.status == 404 && reply.code@
            == Seq::<char>::empty() && reply.uses is None,
{
    match invite {
        Some(found) => {
            if !aliasable_names {
                VanityReply { status: STATUS_OK, code: found.code, uses: found.uses }
            } else {
                VanityReply { status: STATUS_NOT_FOUND, code: String::new(), uses: None }
            }
        },
        None => VanityReply { status: STATUS_NOT_FOUND, code: String::new(), uses: None },
    }
}

/// How a guild's vanity code is written.
#[derive(Clone, Copy, Debug, PartialEq, Eq, Structural)]
pub enum VanityWrite {
    /// The guild has a vanity invite: give it the new code.
    Update,
    /// The guild has none: create one.
    Create,
}

/// How a guild's vanity code is written, given whether the guild has a
/// vanity invite already.
pub fn vanity_write(has_invite: bool) -> (write: VanityWrite)
    ensures
        write == if has_invite {
            VanityWrite::Update
        } else {
            VanityWrite::Create
        },
{
    if has_invite {
        VanityWrite::Update
    } else {
        VanityWrite::Create
    }
}

/// One condition on the entries of a guild's audit log.
#[derive(Clone, Copy, Debug, PartialEq, Eq, Structural)]
pub enum AuditLogClause {
    /// Entries with an id below this one.
    Before(u64),
    /// Entries with an id above this one.
    After(u64),
    /// Entries that this user caused.
    ByUser(u64),
    /// Entries for actions of this type.
    OfAction(i16),
}

/// The conditions that a request for a guild's audit log asks for, in the
/// order in which they are put into the query: before, after, user, action.
pub open spec fn clauses_of(
    before: Option<u64>,
    after: Option<u64>,
    user_id: Option<u64>,
    action_type: Option<i16>,
) -> Seq<AuditLogClause> {
    let first = match before {
        Some(id) => seq![AuditLogClause::Before(id)],
        None => Seq::empty(),
    };
    let second = match after {
        Some(id) => first.push(AuditLogClause::After(id)),
        None => first,
    };
    let third = match user_id {
        Some(id) => second.push(AuditLogClause::ByUser(id)),
        None => second,
    };
    match action_type {
        Some(action) => third.push(AuditLogClause::OfAction(action)),
        None => third,
    }
}

/// The conditions that a request for a guild's audit log asks for, in the
/// order in which they are put into the query.
pub fn audit_log_clauses(
    before: Option<u64>,
    after: Option<u64>,
    user_id: Option<u64>,
    action_type: Option<i16>,
) -> (clauses: Vec<AuditLogClause>)
    ensures
        clauses@ == clauses_of(before, after, user_id, action_type),
{
    let mut clauses: Vec<AuditLogClause> = Vec::new();
    if let Some(id) = before {
        clauses.push(AuditLogClause::Before(id));
    }
    if let Some(id) = after {
        clauses.push(AuditLogClause::After(id));
    }
    if let Some(id) = user_id {
        clauses.push(AuditLogClause::ByUser(id));
    }
    if let Some(action) = action_type {
        clauses.push(AuditLogClause::OfAction(action));
    }
    assert(clauses@ =~= clauses_of(before, after, user_id, action_type));
    clauses
}

} // verus!
