//! The push rule set of a user.

use vstd::prelude::*;

verus! {

/// The GET `/pushrules` endpoint.
pub struct GetPushRules;

/// A push rule.
#[derive(Debug)]
pub struct PushRule {
    /// The actions to perform when the rule matches.
    pub actions: String,
    /// Whether the rule is a default rule.
    pub default: bool,
    /// Whether the rule is enabled.
    pub enabled: bool,
    /// The rule's identifier.
    pub rule_id: String,
}

/// The push rules of one scope, by kind.
#[derive(Debug)]
pub struct RuleSet {
    /// Rules on the content of messages.
    pub content: Vec<PushRule>,
    /// Rules that take precedence over all others.
    pub override_rule: Vec<PushRule>,
    /// Rules for rooms.
    pub room: Vec<PushRule>,
    /// Rules for senders.
    pub sender: Vec<PushRule>,
    /// Rules that apply when no other does.
    pub underride: Vec<PushRule>,
}

/// The answer of the `/pushrules` endpoint.
#[derive(Debug)]
pub struct GetPushRulesResponse {
    /// The global rule set.
    pub global: RuleSet,
}

impl GetPushRules {
    /// The push rules of the authenticated user: no rule is stored, so every
    /// kind of the global set is empty.
    pub fn handle() -> (r: GetPushRulesResponse)
        ensures
            r.global.content@.len() == 0,
            r.global.override_rule@.len() == 0,
            r.global.room@.len() == 0,
            r.global.sender@.len() == 0,
            r.global.underride@.len() == 0,
    {
        GetPushRulesResponse {
            global: RuleSet {
                content: Vec::new(),
                override_rule: Vec::new(),
                room: Vec::new(),
                sender: Vec::new(),
                underride: Vec::new(),
            },
        }
    }
}

} // verus!
