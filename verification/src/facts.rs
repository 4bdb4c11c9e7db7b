//! The facts store: the persisted record of what is installed, by which
//! installer and at what version, plus the gist-sync bookkeeping.

use crate::backend::InstallResult;
use crate::error::InstallError;
use crate::table::Table;
use vstd::prelude::*;

verus! {

/// Where the local knowledge is shared: the gist, the hash of the content
/// last synced and when (seconds since the epoch).
pub struct SyncConfig {
    pub gist_id: String,
    pub gist_url: String,
    pub last_hash: String,
    pub last_sync: i64,
}

/// One installed tool: when it was installed (seconds since the epoch),
/// by which installer, at which version, and which executables it placed.
pub struct ToolFact {
    pub installed_at: i64,
    pub installer: String,
    pub version: Option<String>,
    pub executables: Option<Vec<String>>,
}

/// The whole persisted record: one fact per installed tool, and the sync
/// configuration when sharing is enabled.
pub struct Facts {
    pub tools: Table<ToolFact>,
    pub sync: Option<SyncConfig>,
}

impl Facts {
    /// An empty record.
    pub fn new() -> (r: Self)
        ensures
            forall|n: Seq<char>| r.tools.spec_get(n) is None,
            r.sync is None,
    {
        Facts { tools: Table::new(), sync: None }
    }

    /// Record the outcome of an install operation: a success stores a
    /// fact for the tool; any failure stores nothing, so no fact ever
    /// outlives a failed install.
    pub fn record_outcome(
        &mut self,
        tool_name: &String,
        installer_name: &String,
        outcome: &Result<InstallResult, InstallError>,
        now: i64,
    )
        ensures
            (match outcome {
                Ok(res) => (match final(self).tools.spec_get(tool_name@) {
                    Some(f) => f.installed_at == now && f.installer@ == installer_name@ && (
                    f.version matches Some(v) && v@ == res.version@) && (match f.executables {
                        Some(a) => res.executables matches Some(b) && a@ == b@,
                        None => res.executables is None,
                    }),
                    None => false,
                }) && (forall|n: Seq<char>|
                    n != tool_name@ ==> final(self).tools.spec_get(n) == old(
                        self,
                    ).tools.spec_get(n)),
                Err(_) => *final(self) == *old(self),
            }),
            final(self).sync == old(self).sync,
    {
        match outcome {
            Ok(res) => {
                let executables: Option<Vec<String>> = match &res.executables {
                    Some(e) => {
                        let mut copy: Vec<String> = Vec::new();
                        let mut i: usize = 0;
                        while i < e.len()
                            invariant
                                i <= e@.len(),
                                copy@ == e@.subrange(0, i as int),
                            decreases e@.len() - i,
                        {
                            copy.push(e[i].clone());
                            i = i + 1;
                            proof {
                                assert(copy@ =~= e@.subrange(0, i as int));
                            }
                        }
                        proof {
                            assert(copy@ =~= e@);
                        }
                        Some(copy)
                    },
                    None => None,
                };
                let fact = ToolFact {
                    installed_at: now,
                    installer: installer_name.clone(),
                    version: Some(res.version.clone()),
                    executables,
                };
                self.tools.set(tool_name.clone(), fact);
            },
            Err(_) => {},
        }
    }
}

/// The names of the installed tools, other than `tool_name` itself, whose
/// recorded installer is one of the given provided executables, scanning
/// the record in order.
pub open spec fn spec_dependents(
    entries: Seq<(String, ToolFact)>,
    tool: Seq<char>,
    provides: Seq<Seq<char>>,
) -> Seq<Seq<char>>
    decreases entries.len(),
{
    if entries.len() == 0 {
        Seq::empty()
    } else {
        (if entries[0].0@ != tool && provides.contains(entries[0].1.installer@) {
            seq![entries[0].0@]
        } else {
            Seq::<Seq<char>>::empty()
        }) + spec_dependents(entries.skip(1), tool, provides)
    }
}

/// Collecting dependents distributes over appending one record.
proof fn lemma_dependents_snoc(
    entries: Seq<(String, ToolFact)>,
    x: (String, ToolFact),
    tool: Seq<char>,
    provides: Seq<Seq<char>>,
)
    ensures
        spec_dependents(entries.push(x), tool, provides) == (if x.0@ != tool
            && provides.contains(x.1.installer@) {
            spec_dependents(entries, tool, provides).push(x.0@)
        } else {
            spec_dependents(entries, tool, provides)
        }),
    decreases entries.len(),
{
    let s = entries.push(x);
    if entries.len() == 0 {
        assert(s[0] == x);
        assert(s.skip(1) =~= Seq::<(String, ToolFact)>::empty());
        assert(spec_dependents(Seq::<(String, ToolFact)>::empty(), tool, provides) =~= Seq::<
            Seq<char>,
        >::empty());
        if x.0@ != tool && provides.contains(x.1.installer@) {
            assert(seq![x.0@] + Seq::<Seq<char>>::empty() =~= spec_dependents(
                entries,
                tool,
                provides,
            ).push(x.0@));
        } else {
            assert(Seq::<Seq<char>>::empty() + Seq::<Seq<char>>::empty() =~= spec_dependents(
                entries,
                tool,
                provides,
            ));
        }
    } else {
        assert(s[0] == entries[0]);
        assert(s.skip(1) =~= entries.skip(1).push(x));
        lemma_dependents_snoc(entries.skip(1), x, tool, provides);
        let head = (if entries[0].0@ != tool && provides.contains(entries[0].1.installer@) {
            seq![entries[0].0@]
        } else {
            Seq::<Seq<char>>::empty()
        });
        assert(spec_dependents(s, tool, provides) == head + spec_dependents(
            entries.skip(1).push(x),
            tool,
            provides,
        ));
        assert(spec_dependents(entries, tool, provides) == head + spec_dependents(
            entries.skip(1),
            tool,
            provides,
        ));
        if x.0@ != tool && provides.contains(x.1.installer@) {
            assert(head + spec_dependents(entries.skip(1), tool, provides).push(x.0@) =~= (head
                + spec_dependents(entries.skip(1), tool, provides)).push(x.0@));
        }
    }
}

/// The tools that were installed through an installer this tool provides:
/// they lose their records when the providing tool is uninstalled.
pub fn dependent_tools(facts: &Facts, tool_name: &String, provides: &Vec<String>) -> (r: Vec<
    String,
>)
    ensures
        r@.map_values(|s: String| s@) == spec_dependents(
            facts.tools.entries@,
            tool_name@,
            provides@.map_values(|s: String| s@),
        ),
{
    let ghost entries = facts.tools.entries@;
    let ghost pviews = provides@.map_values(|s: String| s@);
    let mut out: Vec<String> = Vec::new();
    let mut i: usize = 0;
    proof {
        assert(entries.take(0) =~= Seq::<(String, ToolFact)>::empty());
        assert(spec_dependents(entries.take(0), tool_name@, pviews) =~= Seq::<Seq<char>>::empty());
        assert(out@.map_values(|s: String| s@) =~= Seq::<Seq<char>>::empty());
    }
    while i < facts.tools.len()
        invariant
            entries == facts.tools.entries@,
            pviews == provides@.map_values(|s: String| s@),
            i <= entries.len(),
            out@.map_values(|s: String| s@) == spec_dependents(
                entries.take(i as int),
                tool_name@,
                pviews,
            ),
        decreases entries.len() - i,
    {
        let pair = facts.tools.entry_at(i);
        let is_dependent = if pair.0 == *tool_name {
            false
        } else {
            let mut found = false;
            let mut k: usize = 0;
            while k < provides.len()
                invariant
                    pviews == provides@.map_values(|s: String| s@),
                    k <= provides@.len(),
                    found == exists|j: int| 0 <= j < k && #[trigger] pviews[j] == pair.1.installer@,
                decreases provides@.len() - k,
            {
                if provides[k] == pair.1.installer {
                    proof {
                        assert(pviews[k as int] == provides@[k as int]@);
                    }
                    found = true;
                }
                proof {
                    assert(pviews[k as int] == provides@[k as int]@);
                }
                k = k + 1;
            }
            proof {
                if found {
                    assert(pviews.contains(pair.1.installer@));
                } else {
                    assert forall|j: int| 0 <= j < pviews.len() implies #[trigger] pviews[j]
                        != pair.1.installer@ by {}
                    assert(!pviews.contains(pair.1.installer@));
                }
            }
            found
        };
        proof {
            lemma_dependents_snoc(entries.take(i as int), entries[i as int], tool_name@, pviews);
            assert(entries.take(i as int).push(entries[i as int]) =~= entries.take(i + 1));
        }
        if is_dependent {
            let ghost m0 = out@.map_values(|s: String| s@);
            out.push(pair.0.clone());
            proof {
                assert(out@.map_values(|s: String| s@) =~= m0.push(entries[i as int].0@));
            }
        }
        i = i + 1;
    }
    proof {
        assert(entries.take(entries.len() as int) =~= entries);
    }
    out
}

} // verus!
