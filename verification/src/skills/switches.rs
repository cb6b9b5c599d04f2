//! What is switched on. Skills have one switch above all others: where it is off, nothing is
//! embedded, looked up, injected or learnt.
use crate::config::settings::SkillsConfig;
use vstd::prelude::*;

verus! {

/// Learning is on.
pub open spec fn learning(s: SkillsConfig) -> bool {
    s.enabled && s.learn
}

/// Recent questions are researched.
pub open spec fn researching(s: SkillsConfig) -> bool {
    learning(s) && s.proactive
}

/// Skills that are alike are merged.
pub open spec fn merging(s: SkillsConfig) -> bool {
    learning(s) && s.reflect
}

/// Facts are kept.
pub open spec fn keeping_facts(s: SkillsConfig) -> bool {
    researching(s) && s.facts
}

/// Documentation is injected, from the server that there is for it.
pub open spec fn showing_docs(s: SkillsConfig) -> bool {
    s.enabled && s.docs_inject && s.docs_mcp_url is Some
}

/// Whether learning is on.
pub fn learns(s: &SkillsConfig) -> (r: bool)
    ensures
        r == learning(*s),
{
    s.enabled && s.learn
}

/// Whether recent questions are researched.
pub fn researches(s: &SkillsConfig) -> (r: bool)
    ensures
        r == researching(*s),
{
    learns(s) && s.proactive
}

/// Whether skills that are alike are merged.
pub fn merges(s: &SkillsConfig) -> (r: bool)
    ensures
        r == merging(*s),
{
    learns(s) && s.reflect
}

/// Whether facts are kept.
pub fn keeps_facts(s: &SkillsConfig) -> (r: bool)
    ensures
        r == keeping_facts(*s),
{
    researches(s) && s.facts
}

/// Whether documentation is injected.
pub fn shows_docs(s: &SkillsConfig) -> (r: bool)
    ensures
        r == showing_docs(*s),
{
    s.enabled && s.docs_inject && s.docs_mcp_url.is_some()
}

/// Where skills are switched off, so is everything else.
pub proof fn law_off_is_off(s: SkillsConfig)
    requires
        !s.enabled,
    ensures
        !learning(s),
        !researching(s),
        !merging(s),
        !keeping_facts(s),
        !showing_docs(s),
{
}

} // verus!
