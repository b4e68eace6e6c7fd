//! The skills that an agent is taught: one directory each, with a `SKILL.md`.

#[allow(unused_imports)]
use crate::order::{law_orders_ascend, path_lt, text_lt};
use crate::order::{is_order, paths, sorted_places};
use crate::text::{cat, cat3, texts};
use vstd::prelude::*;

verus! {

/// What stands in the skills directory: one entry and, where it holds a `SKILL.md`, its text or
/// why that could not be read.
pub struct SkillEntry {
    pub name: String,
    pub path: String,
    pub is_dir: bool,
    pub has_skill_file: bool,
    pub markdown: Result<String, String>,
}

/// What reading the skills directory gave: why it could not be read, or its entries, each of
/// which may have failed too.
pub struct SkillListing {
    pub entries: Result<Vec<Result<SkillEntry, String>>, String>,
}

#[derive(Debug)]
pub struct LoadedSkill {
    pub name: String,
    pub path: String,
    pub markdown: String,
}

/// The mathematical content of a skill.
pub struct Skill {
    pub name: Seq<char>,
    pub path: Seq<char>,
    pub markdown: Seq<char>,
}

impl View for LoadedSkill {
    type V = Skill;

    open spec fn view(&self) -> Skill {
        Skill { name: self.name@, path: self.path@, markdown: self.markdown@ }
    }
}

pub open spec fn skill_models(v: Seq<LoadedSkill>) -> Seq<Skill> {
    v.map_values(|s: LoadedSkill| s@)
}

/// An entry is a skill if it is a directory with a `SKILL.md`.
pub open spec fn is_skill(e: SkillEntry) -> bool {
    e.is_dir && e.has_skill_file
}

/// Why this entry stops the loading, if it does.
pub open spec fn fault(e: Result<SkillEntry, String>) -> Option<Seq<char>> {
    match e {
        Err(why) => Some(why@),
        Ok(entry) => match entry.markdown {
            Err(why) => if is_skill(entry) {
                Some(why@)
            } else {
                None
            },
            Ok(_) => None,
        },
    }
}

/// The first fault of a listing.
pub open spec fn first_fault(entries: Seq<Result<SkillEntry, String>>) -> Option<Seq<char>>
    decreases entries.len(),
{
    if entries.len() == 0 {
        None
    } else if first_fault(entries.drop_last()) is Some {
        first_fault(entries.drop_last())
    } else {
        fault(entries.last())
    }
}

/// The skills of a listing without faults, as they stand.
pub open spec fn skills_in(entries: Seq<Result<SkillEntry, String>>) -> Seq<Skill>
    decreases entries.len(),
{
    if entries.len() == 0 {
        seq![]
    } else {
        let rest = skills_in(entries.drop_last());
        match entries.last() {
            Ok(e) => match e.markdown {
                Ok(m) => if is_skill(e) {
                    rest.push(Skill { name: e.name@, path: e.path@, markdown: m@ })
                } else {
                    rest
                },
                Err(_) => rest,
            },
            Err(_) => rest,
        }
    }
}

/// The names that skills are sorted by.
pub open spec fn skill_keys(skills: Seq<Skill>) -> Seq<Seq<Seq<char>>> {
    skills.map_values(|s: Skill| seq![s.name])
}

/// `sorted` is `skills` in the order of their names.
pub open spec fn by_name(skills: Seq<Skill>, sorted: Seq<Skill>) -> bool {
    exists|order: Seq<usize>| #[trigger]
        is_order(skill_keys(skills), order) && sorted == Seq::new(
            order.len(),
            |i: int| skills[order[i] as int],
        )
}

/// The part of a prompt that one skill gives.
pub open spec fn skill_text(s: Skill) -> Seq<char> {
    "\n---\n# Skill: "@ + s.name + "\n"@ + s.markdown + "\n"@
}

/// The part of a prompt that skills give, one after the other.
pub open spec fn prompt_block(skills: Seq<Skill>) -> Seq<char>
    decreases skills.len(),
{
    if skills.len() == 0 {
        ""@
    } else {
        prompt_block(skills.drop_last()) + skill_text(skills.last())
    }
}

/// Loading the listing of `root` gives `skills`, or fails with `why`.
pub open spec fn loads(
    root: Seq<char>,
    listing: SkillListing,
    result: Result<Seq<Skill>, Seq<char>>,
) -> bool {
    match listing.entries {
        Err(_) => result == Err::<Seq<Skill>, Seq<char>>("skills dir not readable: "@ + root),
        Ok(entries) => match first_fault(entries@) {
            Some(why) => result == Err::<Seq<Skill>, Seq<char>>(why),
            None => match result {
                Ok(skills) => by_name(skills_in(entries@), skills),
                Err(_) => false,
            },
        },
    }
}

pub struct SkillLoader {
    root: String,
}

impl SkillLoader {
    /// The directory that skills are loaded from.
    pub closed spec fn root(&self) -> Seq<char> {
        self.root@
    }

    pub fn new(root: &str) -> (l: SkillLoader)
        ensures
            l.root() == root@,
    {
        SkillLoader { root: root.to_owned() }
    }

    /// Every subdirectory with a `SKILL.md`, in the order of their names.
    pub fn load_all(&self, listing: &SkillListing) -> (r: Result<Vec<LoadedSkill>, String>)
        ensures
            loads(
                self.root(),
                *listing,
                match r {
                    Ok(v) => Ok(skill_models(v@)),
                    Err(why) => Err(why@),
                },
            ),
    {
        match &listing.entries {
            Err(_) => Err(cat("skills dir not readable: ", self.root.as_str())),
            Ok(entries) => {
                let found = match collect(entries) {
                    Ok(v) => v,
                    Err(why) => {
                        return Err(why);
                    },
                };
                Ok(sort_by_name(&found))
            },
        }
    }

    /// The skills as the block of text that goes into a system prompt.
    pub fn system_prompt_block(&self, listing: &SkillListing) -> (r: Result<String, String>)
        ensures
            match r {
                Ok(block) => exists|skills: Seq<Skill>| #[trigger]
                    loads(self.root(), *listing, Ok(skills)) && block@ == prompt_block(skills),
                Err(why) => loads(self.root(), *listing, Err(why@)),
            },
    {
        let skills = match self.load_all(listing) {
            Ok(v) => v,
            Err(why) => {
                return Err(why);
            },
        };
        let ghost all = skill_models(skills@);
        let mut buf = "".to_owned();
        let mut i: usize = 0;
        assert(all.take(0) =~= seq![]);
        while i < skills.len()
            invariant
                all == skill_models(skills@),
                i <= skills@.len(),
                buf@ == prompt_block(all.take(i as int)),
            decreases skills@.len() - i,
        {
            assert(all.take(i + 1).drop_last() =~= all.take(i as int));
            assert(all.take(i + 1).last() == skills@[i as int]@);
            let head = cat3("\n---\n# Skill: ", skills[i].name.as_str(), "\n");
            let part = cat3(head.as_str(), skills[i].markdown.as_str(), "\n");
            assert(part@ == skill_text(skills@[i as int]@));
            buf.append(part.as_str());
            i += 1;
        }
        assert(all.take(all.len() as int) =~= all);
        assert(loads(self.root(), *listing, Ok(all)));
        Ok(buf)
    }
}

fn collect(entries: &Vec<Result<SkillEntry, String>>) -> (r: Result<Vec<LoadedSkill>, String>)
    ensures
        match r {
            Ok(v) => first_fault(entries@) is None && skill_models(v@) == skills_in(entries@),
            Err(why) => first_fault(entries@) == Some(why@),
        },
{
    let mut out: Vec<LoadedSkill> = Vec::new();
    let mut i: usize = 0;
    let ghost all = entries@;
    assert(all.take(0) =~= seq![]);
    assert(skill_models(out@) =~= seq![]);
    while i < entries.len()
        invariant
            all == entries@,
            i <= entries@.len(),
            first_fault(all.take(i as int)) is None,
            skill_models(out@) == skills_in(all.take(i as int)),
        decreases entries@.len() - i,
    {
        let ghost before = out@;
        assert(all.take(i + 1).drop_last() =~= all.take(i as int));
        assert(all.take(i + 1).last() == entries@[i as int]);
        match &entries[i] {
            Err(why) => {
                proof {
                    lemma_fault_stays(all, i + 1);
                }
                return Err(why.clone());
            },
            Ok(e) => {
                if e.is_dir && e.has_skill_file {
                    match &e.markdown {
                        Err(why) => {
                            proof {
                                lemma_fault_stays(all, i + 1);
                            }
                            return Err(why.clone());
                        },
                        Ok(m) => {
                            let s = LoadedSkill {
                                name: e.name.clone(),
                                path: e.path.clone(),
                                markdown: m.clone(),
                            };
                            out.push(s);
                            assert(skill_models(out@) =~= skill_models(before).push(s@));
                        },
                    }
                }
            },
        }
        i += 1;
    }
    assert(all.take(all.len() as int) =~= all);
    Ok(out)
}

/// A fault that a first part of a listing has is the first fault of the whole.
proof fn lemma_fault_stays(entries: Seq<Result<SkillEntry, String>>, n: int)
    requires
        0 <= n <= entries.len(),
        first_fault(entries.take(n)) is Some,
    ensures
        first_fault(entries) == first_fault(entries.take(n)),
    decreases entries.len() - n,
{
    if n < entries.len() {
        assert(entries.take(n + 1).drop_last() =~= entries.take(n));
        lemma_fault_stays(entries, n + 1);
    } else {
        assert(entries.take(n) =~= entries);
    }
}

fn sort_by_name(skills: &Vec<LoadedSkill>) -> (sorted: Vec<LoadedSkill>)
    ensures
        by_name(skill_models(skills@), skill_models(sorted@)),
{
    let ghost models = skill_models(skills@);
    let mut keys: Vec<Vec<String>> = Vec::new();
    let mut i: usize = 0;
    while i < skills.len()
        invariant
            models == skill_models(skills@),
            i <= skills@.len(),
            keys@.len() == i,
            forall|j: int| 0 <= j < i ==> texts((#[trigger] keys@[j])@) == seq![models[j].name],
        decreases skills@.len() - i,
    {
        let key: Vec<String> = vec![skills[i].name.clone()];
        assert(texts(key@) =~= seq![models[i as int].name]);
        keys.push(key);
        i += 1;
    }
    assert(paths(keys@) =~= skill_keys(models));
    let order = sorted_places(&keys);
    let mut sorted: Vec<LoadedSkill> = Vec::new();
    let mut n: usize = 0;
    while n < order.len()
        invariant
            models == skill_models(skills@),
            is_order(skill_keys(models), order@),
            skill_keys(models).len() == skills@.len(),
            n <= order@.len(),
            sorted@.len() == n,
            forall|j: int| 0 <= j < n ==> (#[trigger] sorted@[j])@ == models[order@[j] as int],
        decreases order@.len() - n,
    {
        assert(order@[n as int] < skills@.len());
        let s = &skills[order[n]];
        sorted.push(
            LoadedSkill { name: s.name.clone(), path: s.path.clone(), markdown: s.markdown.clone() },
        );
        n += 1;
    }
    assert(skill_models(sorted@) =~= Seq::new(order@.len(), |i: int| models[order@[i] as int]));
    sorted
}

/// The skills of a listing are its directories with a `SKILL.md`, all of them and no others, each with
/// its name, its path and the whole text of that file, in the order of the listing.
pub proof fn law_skills_are_directories_with_a_skill_file(
    entries: Seq<Result<SkillEntry, String>>,
    more: Seq<Result<SkillEntry, String>>,
    e: SkillEntry,
)
    ensures
        skills_in(seq![]) == Seq::<Skill>::empty(),
        skills_in(entries + more) == skills_in(entries) + skills_in(more),
        skills_in(seq![Ok::<SkillEntry, String>(e)]) == (if e.is_dir && e.has_skill_file
            && e.markdown is Ok {
            seq![Skill { name: e.name@, path: e.path@, markdown: e.markdown->Ok_0@ }]
        } else {
            seq![]
        }),
    decreases more.len(),
{
    let one = seq![Ok::<SkillEntry, String>(e)];
    assert(one.drop_last() =~= seq![]);
    assert(one.last() == Ok::<SkillEntry, String>(e));
    reveal_with_fuel(skills_in, 2);
    assert(skills_in(one.drop_last()) =~= seq![]);
    if e.is_dir && e.has_skill_file && e.markdown is Ok {
        assert(skills_in(one) =~= seq![
            Skill { name: e.name@, path: e.path@, markdown: e.markdown->Ok_0@ },
        ]);
    }
    if more.len() == 0 {
        assert(entries + more =~= entries);
        assert(skills_in(entries) + skills_in(more) =~= skills_in(entries));
    } else {
        law_skills_are_directories_with_a_skill_file(entries, more.drop_last(), e);
        assert((entries + more).drop_last() =~= entries + more.drop_last());
        assert((entries + more).last() == more.last());
        assert(skills_in(entries + more) =~= skills_in(entries) + skills_in(more));
    }
}

/// Loading stops at the first entry that could not be read, or is a skill whose text could not be read,
/// and says why; if there is none, it does not stop.
pub proof fn law_loading_stops_at_the_first_fault(entries: Seq<Result<SkillEntry, String>>, n: int)
    requires
        0 <= n <= entries.len(),
        forall|i: int|
            0 <= i < n ==> ((#[trigger] entries[i]) matches Ok(e) && !(e.is_dir && e.has_skill_file
                && e.markdown is Err)),
        n < entries.len() ==> !(entries[n] matches Ok(e) && !(e.is_dir && e.has_skill_file
            && e.markdown is Err)),
    ensures
        n == entries.len() ==> first_fault(entries) is None,
        n < entries.len() ==> first_fault(entries) == Some(
            match entries[n] {
                Ok(e) => e.markdown->Err_0@,
                Err(why) => why@,
            },
        ),
    decreases n,
{
    if n > 0 {
        let less = entries.take(n);
        let fewer = entries.take(n - 1);
        assert(less.drop_last() =~= fewer);
        assert(less.last() == entries[n - 1]);
        assert forall|i: int| 0 <= i < n - 1 implies #[trigger] fewer[i] == entries[i] by {}
        law_loading_stops_at_the_first_fault(fewer, n - 1);
        assert(first_fault(less) is None);
    } else {
        assert(first_fault(entries.take(0)) is None);
    }
    if n == entries.len() {
        assert(entries.take(n) =~= entries);
    } else {
        let more = entries.take(n + 1);
        assert(more.drop_last() =~= entries.take(n));
        assert(more.last() == entries[n]);
        lemma_fault_stays(entries, n + 1);
    }
}

/// Skills are sorted by their names, and none is lost, added or changed.
pub proof fn law_skills_are_sorted_by_name(
    skills: Seq<Skill>,
    sorted: Seq<Skill>,
    i: int,
    j: int,
    k: int,
)
    requires
        by_name(skills, sorted),
    ensures
        sorted.len() == skills.len(),
        0 <= i < j < sorted.len() ==> !text_lt(sorted[j].name, sorted[i].name),
        0 <= k < skills.len() ==> sorted.contains(skills[k]),
        0 <= k < sorted.len() ==> skills.contains(sorted[k]),
{
    let keys = skill_keys(skills);
    let order = choose|order: Seq<usize>| #[trigger]
        is_order(keys, order) && sorted == Seq::new(
            order.len(),
            |i: int| skills[order[i] as int],
        );
    if 0 <= i < j < sorted.len() {
        law_orders_ascend(keys, order, i, j, 0);
        let a = keys[order[i] as int];
        let b = keys[order[j] as int];
        assert(a == seq![sorted[i].name]);
        assert(b == seq![sorted[j].name]);
        reveal_with_fuel(path_lt, 2);
        assert(a[0] == sorted[i].name);
        assert(b[0] == sorted[j].name);
        crate::order::lemma_text_order(a[0], b[0]);
    }
    if 0 <= k < skills.len() {
        assert(crate::order::listed(order, k));
        let n = choose|n: int| 0 <= n < order.len() && #[trigger] order[n] == k;
        assert(sorted[n] == skills[k]);
    }
    if 0 <= k < sorted.len() {
        assert(order[k] < keys.len());
        assert(skills[order[k] as int] == sorted[k]);
    }
}

/// The skills of a prompt stand one after the other, each under its name with its whole text.
pub proof fn law_prompts_hold_every_skill(skills: Seq<Skill>, more: Seq<Skill>, s: Skill)
    ensures
        prompt_block(seq![]).len() == 0,
        prompt_block(seq![s]) == "\n---\n# Skill: "@ + s.name + "\n"@ + s.markdown + "\n"@,
        prompt_block(skills + more) == prompt_block(skills) + prompt_block(more),
    decreases more.len(),
{
    reveal_strlit("");
    assert(seq![s].drop_last() =~= seq![]);
    reveal_with_fuel(prompt_block, 2);
    assert(prompt_block(seq![s]) =~= "\n---\n# Skill: "@ + s.name + "\n"@ + s.markdown + "\n"@);
    if more.len() == 0 {
        assert(skills + more =~= skills);
        assert(prompt_block(skills) + prompt_block(more) =~= prompt_block(skills));
    } else {
        law_prompts_hold_every_skill(skills, more.drop_last(), s);
        assert((skills + more).drop_last() =~= skills + more.drop_last());
        assert((skills + more).last() == more.last());
        assert(prompt_block(skills + more) =~= prompt_block(skills) + prompt_block(more));
    }
}

/// What loading a listing comes to: where it could not be read, that is told with the directory; where
/// an entry has a fault, the first one; and else all skills, sorted.
pub proof fn law_listings_are_loaded_whole(
    root: Seq<char>,
    listing: SkillListing,
    r: Result<Seq<Skill>, Seq<char>>,
)
    requires
        loads(root, listing, r),
    ensures
        match (listing.entries, r) {
            (Err(_), Err(why)) => why == "skills dir not readable: "@ + root,
            (Err(_), Ok(_)) => false,
            (Ok(entries), Err(why)) => first_fault(entries@) == Some(why),
            (Ok(entries), Ok(skills)) => first_fault(entries@) is None && by_name(
                skills_in(entries@),
                skills,
            ),
        },
{
}

/// The model of the skills is the skills, one for one, each with its name, its path and its whole text.
pub proof fn law_skills_are_modelled_whole(v: Seq<LoadedSkill>, i: int)
    ensures
        skill_models(v).len() == v.len(),
        0 <= i < v.len() ==> skill_models(v)[i].name == v[i].name@,
        0 <= i < v.len() ==> skill_models(v)[i].path == v[i].path@,
        0 <= i < v.len() ==> skill_models(v)[i].markdown == v[i].markdown@,
{
}

} // verus!
