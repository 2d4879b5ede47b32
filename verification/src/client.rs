//! Client-side decisions: where a command connects, which session an
//! attach without an id picks, and how error messages are enriched with
//! hints.

use vstd::prelude::*;

use crate::protocol::SessionInfo;
use crate::text::{lemma_lex_refl, lemma_lex_total, lemma_lex_trans, spec_has_substring, spec_lex_le, str_has_substring, str_lex_le};

verus! {

/// Where a client command connects: the local node's socket directory,
/// or a remote server over WebSocket with a bearer token.
pub enum Target {
    Local(String),
    Remote { url: String, token: String },
}

/// A listed session that an id-less attach may pick: running, with
/// nobody attached.
pub open spec fn spec_is_attach_candidate(s: SessionInfo) -> bool {
    s.status@ == "running"@ && !s.attached
}

/// The auto-attach policy: pick the oldest running, unattached session —
/// by launch time, and among equals the one listed first (the lowest
/// id, since listings are sorted). None when no session qualifies.
pub fn select_auto_attach(sessions: &Vec<SessionInfo>) -> (r: Option<u32>)
    ensures
        (r is None) <==> (forall|i: int|
            0 <= i < sessions@.len() ==> !spec_is_attach_candidate(#[trigger] sessions@[i])),
        r matches Some(id) ==> exists|i: int|
            {
                &&& 0 <= i < sessions@.len()
                &&& spec_is_attach_candidate(#[trigger] sessions@[i])
                &&& id == sessions@[i].id
                &&& forall|j: int|
                    0 <= j < sessions@.len() && spec_is_attach_candidate(#[trigger] sessions@[j])
                        ==> spec_lex_le(sessions@[i].created_at@, sessions@[j].created_at@)
                &&& forall|j: int|
                    0 <= j < i && spec_is_attach_candidate(#[trigger] sessions@[j])
                        ==> !spec_lex_le(sessions@[j].created_at@, sessions@[i].created_at@)
            },
{
    let mut best: Option<usize> = None;
    let mut i: usize = 0;
    while i < sessions.len()
        invariant
            i <= sessions@.len(),
            match best {
                None => forall|k: int|
                    0 <= k < i ==> !spec_is_attach_candidate(#[trigger] sessions@[k]),
                Some(b) => {
                    &&& b < i
                    &&& spec_is_attach_candidate(sessions@[b as int])
                    &&& forall|k: int|
                        0 <= k < i && spec_is_attach_candidate(#[trigger] sessions@[k])
                            ==> spec_lex_le(
                            sessions@[b as int].created_at@,
                            sessions@[k].created_at@,
                        )
                    &&& forall|k: int|
                        0 <= k < b && spec_is_attach_candidate(#[trigger] sessions@[k])
                            ==> !spec_lex_le(
                            sessions@[k].created_at@,
                            sessions@[b as int].created_at@,
                        )
                },
            },
        decreases sessions@.len() - i,
    {
        let s = &sessions[i];
        let candidate = !s.attached && crate::text::str_eq(s.status.as_str(), "running");
        if candidate {
            match best {
                None => {
                    proof {
                        lemma_lex_refl(sessions@[i as int].created_at@);
                    }
                    best = Some(i);
                },
                Some(b) => {
                    let earlier = !str_lex_le(
                        sessions[b].created_at.as_str(),
                        s.created_at.as_str(),
                    );
                    proof {
                        lemma_lex_total(
                            sessions@[b as int].created_at@,
                            sessions@[i as int].created_at@,
                        );
                    }
                    if earlier {
                        proof {
                            lemma_lex_refl(sessions@[i as int].created_at@);
                            assert forall|k: int|
                                0 <= k < i && spec_is_attach_candidate(#[trigger] sessions@[k])
                                    implies spec_lex_le(
                                sessions@[i as int].created_at@,
                                sessions@[k].created_at@,
                            ) by {
                                lemma_lex_trans(
                                    sessions@[i as int].created_at@,
                                    sessions@[b as int].created_at@,
                                    sessions@[k].created_at@,
                                );
                            }
                            assert forall|k: int|
                                0 <= k < i && spec_is_attach_candidate(#[trigger] sessions@[k])
                                    implies !spec_lex_le(
                                sessions@[k].created_at@,
                                sessions@[i as int].created_at@,
                            ) by {
                                if spec_lex_le(
                                    sessions@[k].created_at@,
                                    sessions@[i as int].created_at@,
                                ) {
                                    lemma_lex_trans(
                                        sessions@[b as int].created_at@,
                                        sessions@[k].created_at@,
                                        sessions@[i as int].created_at@,
                                    );
                                }
                            }
                        }
                        best = Some(i);
                    }
                },
            }
        }
        i = i + 1;
    }
    match best {
        None => None,
        Some(b) => Some(sessions[b].id),
    }
}

/// Enrich an error message with the hint a human wants next: how to list
/// sessions for an unknown id, how to inspect one that is not running.
pub fn format_error(message: &str) -> (out: String)
    ensures
        spec_has_substring(message@, "not found"@) ==> out@ == message@
            + "\n\nUse 'cw list' to see active sessions"@,
        !spec_has_substring(message@, "not found"@) && spec_has_substring(
            message@,
            "not running"@,
        ) ==> out@ == message@ + "\n\nUse 'cw status <id>' to check session status"@,
        !spec_has_substring(message@, "not found"@) && !spec_has_substring(
            message@,
            "not running"@,
        ) ==> out@ == message@,
{
    if str_has_substring(message, "not found") {
        let mut out = message.to_owned();
        out.append("\n\nUse 'cw list' to see active sessions");
        out
    } else if str_has_substring(message, "not running") {
        let mut out = message.to_owned();
        out.append("\n\nUse 'cw status <id>' to check session status");
        out
    } else {
        message.to_owned()
    }
}

} // verus!
