//! A stream's identity tokens, by which two streams that would name the
//! same camera are told apart, and the conflict a shared token raises.
use vstd::prelude::*;
use crate::streams::edits::{lex_lt, str_less};
use crate::streams::manifest::opt_view;
use crate::streams::validation::{uuid_string, uuid_text};
use crate::text::{owned, seq_eq, views};

verus! {

/// A normalized alias or hardware id counts as a token, except the
/// generic `media-file` of a file stream.
pub open spec fn counts_as_token(tok: Option<Seq<char>>, file_backend: bool) -> bool {
    tok matches Some(t) && !(file_backend && t == "media-file"@)
}

/// The tokens of a stream: its id, and its normalized alias and hardware
/// id where they count.
pub open spec fn token_set(id: u128, alias_token: Option<Seq<char>>, hardware_token: Option<Seq<char>>, file_backend: bool) -> Set<Seq<char>> {
    let s0 = set![uuid_text(id)];
    let s1 = if counts_as_token(alias_token, file_backend) {
        s0.insert(alias_token->0)
    } else {
        s0
    };
    if counts_as_token(hardware_token, file_backend) {
        s1.insert(hardware_token->0)
    } else {
        s1
    }
}

fn add_token(out: &mut Vec<String>, tok: &Option<String>, file_backend: bool)
    requires
        views(old(out)@).no_duplicates(),
    ensures
        views(final(out)@).no_duplicates(),
        views(final(out)@).to_set() == if counts_as_token(opt_view(*tok), file_backend) {
            views(old(out)@).to_set().insert(opt_view(*tok)->0)
        } else {
            views(old(out)@).to_set()
        },
{
    proof {
        reveal_strlit("media-file");
    }
    let ghost before = views(out@);
    match tok {
        Some(t) => {
            if file_backend && seq_eq(t.as_str(), "media-file") {
                return;
            }
            let mut i: usize = 0;
            while i < out.len()
                invariant
                    before == views(out@),
                    before == views(old(out)@),
                    before.no_duplicates(),
                    *tok == Some(*t),
                    counts_as_token(opt_view(*tok), file_backend),
                    i <= out@.len(),
                    forall|j: int| 0 <= j < i ==> before[j] != t@,
                decreases out@.len() - i,
            {
                assert(before[i as int] == out@[i as int]@);
                if seq_eq(out[i].as_str(), t.as_str()) {
                    assert(before[i as int] == t@);
                    assert(before.contains(t@));
                    assert(before.to_set().contains(t@));
                    assert(before.to_set().insert(t@) =~= before.to_set());
                    return;
                }
                i = i + 1;
            }
            out.push(t.clone());
            assert(views(out@) =~= before.push(t@));
            proof {
                assert(!before.contains(t@));
                assert(before.push(t@).to_set() =~= before.to_set().insert(t@)) by {
                    assert forall|x: Seq<char>| before.push(t@).to_set().contains(x) <==> before.to_set().insert(t@).contains(x) by {
                        if before.push(t@).contains(x) {
                            let k = choose|k: int| 0 <= k < before.push(t@).len() && before.push(t@)[k] == x;
                            if k < before.len() {
                                assert(before[k] == x);
                            }
                        }
                        if before.contains(x) {
                            let k = choose|k: int| 0 <= k < before.len() && before[k] == x;
                            assert(before.push(t@)[k] == x);
                        }
                        if x == t@ {
                            assert(before.push(t@)[before.len() as int] == x);
                        }
                    }
                }
            }
        },
        None => {},
    }
}

/// The identity tokens of a stream, each once.
pub fn stream_identity_token_set(
    stream_id: u128,
    alias_token: &Option<String>,
    hardware_token: &Option<String>,
    file_backend: bool,
) -> (r: Vec<String>)
    ensures
        views(r@).no_duplicates(),
        views(r@).to_set() == token_set(stream_id, opt_view(*alias_token), opt_view(*hardware_token), file_backend),
{
    let mut out: Vec<String> = Vec::new();
    out.push(uuid_string(stream_id));
    let ghost first = views(out@);
    assert(first =~= seq![uuid_text(stream_id)]);
    assert(first.to_set() =~= set![uuid_text(stream_id)]) by {
        assert forall|x: Seq<char>| first.to_set().contains(x) <==> set![uuid_text(stream_id)].contains(x) by {
            if x == uuid_text(stream_id) {
                assert(first[0] == x);
            }
        }
    }
    add_token(&mut out, alias_token, file_backend);
    add_token(&mut out, hardware_token, file_backend);
    out
}

/// The least token two streams share, by code points.
pub open spec fn least_shared(a: Seq<Seq<char>>, b: Seq<Seq<char>>, t: Seq<char>) -> bool {
    &&& a.contains(t)
    &&& b.contains(t)
    &&& forall|c: Seq<char>| a.contains(c) && b.contains(c) ==> !lex_lt(c, t)
}

pub fn shared_token(a: &Vec<String>, b: &Vec<String>) -> (r: Option<String>)
    ensures
        r is None <==> !exists|c: Seq<char>| views(a@).contains(c) && views(b@).contains(c),
        r matches Some(t) ==> least_shared(views(a@), views(b@), t@),
{
    let ghost av = views(a@);
    let ghost bv = views(b@);
    let mut best: Option<String> = None;
    let mut i: usize = 0;
    while i < a.len()
        invariant
            av == views(a@),
            bv == views(b@),
            i <= a@.len(),
            best is None ==> forall|k: int| 0 <= k < i ==> !bv.contains(#[trigger] av[k]),
            best matches Some(t) ==> av.contains(t@) && bv.contains(t@) && forall|k: int|
                0 <= k < i && bv.contains(#[trigger] av[k]) ==> !lex_lt(av[k], t@),
        decreases a@.len() - i,
    {
        assert(av[i as int] == a@[i as int]@);
        let mut in_b = false;
        let mut j: usize = 0;
        while j < b.len()
            invariant
                av == views(a@),
                bv == views(b@),
                i < a@.len(),
                j <= b@.len(),
                in_b == exists|k: int| 0 <= k < j && bv[k] == av[i as int],
            decreases b@.len() - j,
        {
            assert(bv[j as int] == b@[j as int]@);
            if seq_eq(b[j].as_str(), a[i].as_str()) {
                in_b = true;
            }
            j = j + 1;
        }
        assert(in_b == bv.contains(av[i as int]));
        if in_b {
            let better = match &best {
                Some(t) => str_less(a[i].as_str(), t.as_str()),
                None => true,
            };
            if better {
                proof {
                    crate::streams::edits::lemma_lex_lt_irreflexive(av[i as int], 0);
                    if best is Some {
                        assert forall|k: int| 0 <= k < i && bv.contains(#[trigger] av[k]) implies !lex_lt(av[k], av[i as int]) by {
                            if lex_lt(av[k], av[i as int]) {
                                crate::streams::edits::lemma_lex_lt_transitive(av[k], av[i as int], best->0@, 0);
                            }
                        }
                    }
                }
                best = Some(a[i].clone());
            }
        }
        i = i + 1;
    }
    proof {
        if best is None {
            assert forall|c: Seq<char>| av.contains(c) implies !bv.contains(c) by {
                let k = choose|k: int| 0 <= k < av.len() && av[k] == c;
                assert(!bv.contains(av[k]));
            }
        } else {
            assert forall|c: Seq<char>| av.contains(c) && bv.contains(c) implies !lex_lt(c, best->0@) by {
                let k = choose|k: int| 0 <= k < av.len() && av[k] == c;
                assert(bv.contains(av[k]));
            }
        }
    }
    best
}

/// The conflict message when a new identity shares a token with another
/// stream, running or stored.
pub open spec fn conflict_text(token: Seq<char>, running: bool, other_id: u128, camera_id: Seq<char>) -> Seq<char> {
    "stream identity token already in use: token=\""@ + token + "\" conflicts with "@ + (if running {
        "running"@
    } else {
        "persisted"@
    }) + " stream id=\""@ + uuid_text(other_id) + "\" (camera=\""@ + camera_id + "\")"@
}

pub fn identity_conflict_message(token: &str, running: bool, other_id: u128, camera_id: &str) -> (r: String)
    ensures
        r@ == conflict_text(token@, running, other_id, camera_id@),
{
    let mut out = owned("stream identity token already in use: token=\"");
    out.append(token);
    out.append("\" conflicts with ");
    if running {
        out.append("running");
    } else {
        out.append("persisted");
    }
    out.append(" stream id=\"");
    out.append(uuid_string(other_id).as_str());
    out.append("\" (camera=\"");
    out.append(camera_id);
    out.append("\")");
    out
}

} // verus!
