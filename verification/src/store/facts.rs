//! Promoting facts to project memories, and seeding memories under a given number.

use vstd::prelude::*;

use crate::digest::{fnv1a, stable_content_hash};
use crate::rows::{first_where, group_views, list_names, opt_dup, take_all, take_next, views, Row};
use crate::store::drops::commands_kept;
use crate::store::errors::{McStoreError, StoreError};
use crate::store::integrity::{memory_seeded, promoted_kept, well_formed};
use crate::store::memories::{
    find_memory, find_saying, is_live_status, live_status, log_row, make_memory, new_memory,
    saying, with_id,
};
use crate::store::mutations::loggable;
use crate::store::records::{
    FactCandidate, FactCandidateModel, PromotedRef, PromotedRefModel, StoredMemoryFull,
    StoredMemoryFullModel,
};
use crate::store::{McStore, McStoreModel};
use crate::text::{
    blank, hex, hex_text, i64_text, int_text, is_blank, owned, same_text,
};

verus! {

/// What the live memories of a project say.
pub open spec fn active_contents(rows: Seq<StoredMemoryFullModel>, project: Seq<char>) -> Seq<
    Seq<char>,
>
    decreases rows.len(),
{
    if rows.len() == 0 {
        Seq::empty()
    } else {
        let rest = active_contents(rows.drop_last(), project);
        let m = rows.last();
        if m.project_path == project && live_status(m.status) {
            rest.push(m.content)
        } else {
            rest
        }
    }
}

/// What the facts say.
pub open spec fn fact_contents(facts: Seq<FactCandidateModel>) -> Seq<Seq<char>> {
    facts.map_values(|f: FactCandidateModel| f.content)
}

/// The facts that become memories: those with a category and a content that no live memory
/// and no earlier fact says letter for letter.
pub open spec fn promotable(active: Seq<Seq<char>>, facts: Seq<FactCandidateModel>) -> Seq<
    FactCandidateModel,
>
    decreases facts.len(),
{
    if facts.len() == 0 {
        Seq::empty()
    } else {
        let rest = promotable(active, facts.drop_last());
        let f = facts.last();
        if blank(f.category) || blank(f.content) || active.contains(f.content) || fact_contents(
            rest,
        ).contains(f.content) {
            rest
        } else {
            rest.push(f)
        }
    }
}

/// The largest number of a memory, zero where there is none.
pub open spec fn max_id(rows: Seq<StoredMemoryFullModel>) -> i64
    decreases rows.len(),
{
    if rows.len() == 0 {
        0
    } else if rows.len() == 1 {
        rows[0].id
    } else {
        let rest = max_id(rows.drop_last());
        if rest >= rows.last().id {
            rest
        } else {
            rows.last().id
        }
    }
}

/// The hash under which a promoted fact is stored: unlike any other by its last number.
pub open spec fn exact_hash(content: Seq<char>, nonce: int) -> Seq<char> {
    "historian-exact:"@ + hex(fnv1a(vstd::utf8::encode_utf8(content)) as nat, 16) + ":"@ + int_text(
        nonce,
    )
}

/// The memory that a promoted fact becomes.
pub open spec fn fact_memory(project: Seq<char>, f: FactCandidateModel, id: i64, nonce: int) ->
    StoredMemoryFullModel {
    StoredMemoryFullModel {
        importance: f.importance,
        source_session_id: f.source_session_id,
        expires_at: f.expires_at,
        ..new_memory(
            id,
            project,
            f.category,
            f.content,
            exact_hash(f.content, nonce),
            "historian"@,
            0,
        )
    }
}

/// The memories that promoted facts become, numbered behind `last`.
pub open spec fn fact_memories(
    project: Seq<char>,
    facts: Seq<FactCandidateModel>,
    last: i64,
    largest: i64,
) -> Seq<StoredMemoryFullModel> {
    Seq::new(
        facts.len(),
        |k: int| fact_memory(project, facts[k], (last + 1 + k) as i64, largest + 1 + k),
    )
}

/// The facts of a project that a promotion stores.
pub open spec fn facts_to_store(
    s: McStoreModel,
    project: Seq<char>,
    facts: Seq<FactCandidateModel>,
) -> Seq<FactCandidateModel> {
    promotable(active_contents(s.memories, project), facts)
}

/// The memories that a promotion adds.
pub open spec fn promoted_memories(
    s: McStoreModel,
    project: Seq<char>,
    facts: Seq<FactCandidateModel>,
) -> Seq<StoredMemoryFullModel> {
    fact_memories(
        project,
        facts_to_store(s, project, facts),
        s.last_memory_id,
        max_id(s.memories),
    )
}

/// Why a promotion fails, if it does: numbers run out, or a memory carries the hash of a
/// promoted fact already.
pub open spec fn promotion_failure(
    s: McStoreModel,
    project: Seq<char>,
    facts: Seq<FactCandidateModel>,
) -> Option<StoreError> {
    let n = facts_to_store(s, project, facts).len();
    let added = promoted_memories(s, project, facts);
    if s.last_memory_id + n > i64::MAX || max_id(s.memories) + n >= i64::MAX {
        Some(StoreError::Exhausted)
    } else if exists|k: int|
        0 <= k < added.len() && first_where(
            s.memories,
            saying(
                project,
                (#[trigger] added[k]).category,
                added[k].normalized_hash,
            ),
        ) is Some {
        Some(StoreError::Constraint)
    } else {
        None
    }
}

/// The store after a promotion.
pub open spec fn with_promoted(
    s: McStoreModel,
    project: Seq<char>,
    facts: Seq<FactCandidateModel>,
) -> McStoreModel {
    McStoreModel {
        memories: s.memories + promoted_memories(s, project, facts),
        last_memory_id: (s.last_memory_id + facts_to_store(s, project, facts).len()) as i64,
        ..s
    }
}

/// The references to promoted memories.
pub open spec fn promoted_refs(rows: Seq<StoredMemoryFullModel>) -> Seq<PromotedRefModel> {
    rows.map_values(|m: StoredMemoryFullModel| PromotedRefModel { memory_id: m.id, content: m.content })
}

/// Promoting adds no memory whose content a live memory of the project has, nor two with
/// the same content.
pub proof fn promotion_adds_no_repeats(active: Seq<Seq<char>>, facts: Seq<FactCandidateModel>)
    ensures
        forall|i: int|
            0 <= i < promotable(active, facts).len() ==> !active.contains(
                (#[trigger] promotable(active, facts)[i]).content,
            ),
        fact_contents(promotable(active, facts)).no_duplicates(),
    decreases facts.len(),
{
    if facts.len() > 0 {
        promotion_adds_no_repeats(active, facts.drop_last());
        let rest = promotable(active, facts.drop_last());
        let all = promotable(active, facts);
        let texts = fact_contents(all);
        assert forall|i: int, j: int|
            0 <= i < texts.len() && 0 <= j < texts.len() && i != j implies texts[i]
            != texts[j] by {
            if i < rest.len() {
                assert(texts[i] == fact_contents(rest)[i]);
            }
            if j < rest.len() {
                assert(texts[j] == fact_contents(rest)[j]);
            }
        }
    }
}

/// Promoting a second time adds nothing: the stored facts are live memories by then.
pub proof fn promoting_again_adds_nothing(
    active: Seq<Seq<char>>,
    more: Seq<Seq<char>>,
    facts: Seq<FactCandidateModel>,
)
    requires
        forall|c: Seq<char>|
            active.contains(c) || fact_contents(promotable(active, facts)).contains(c)
                ==> #[trigger] more.contains(c),
    ensures
        promotable(more, facts).len() == 0,
    decreases facts.len(),
{
    if facts.len() > 0 {
        let rest = promotable(active, facts.drop_last());
        let all = promotable(active, facts);
        assert forall|c: Seq<char>|
            active.contains(c) || fact_contents(rest).contains(c) implies #[trigger] more.contains(
            c,
        ) by {
            if fact_contents(rest).contains(c) {
                let i = choose|i: int| 0 <= i < fact_contents(rest).len() && fact_contents(rest)[i] == c;
                assert(fact_contents(all)[i] == c);
                assert(fact_contents(all).contains(c));
            }
        }
        promoting_again_adds_nothing(active, more, facts.drop_last());
        let f = facts.last();
        if !blank(f.category) && !blank(f.content) {
            if !active.contains(f.content) && !fact_contents(rest).contains(f.content) {
                assert(fact_contents(all)[all.len() - 1] == f.content);
                assert(fact_contents(all).contains(f.content));
            }
            assert(more.contains(f.content));
        }
    }
}

fn names_fact(rows: &Vec<FactCandidate>, content: &str) -> (r: bool)
    ensures
        r == fact_contents(views(rows@)).contains(content@),
{
    let mut i: usize = 0;
    while i < rows.len()
        invariant
            i <= rows.len(),
            forall|j: int| 0 <= j < i ==> #[trigger] fact_contents(views(rows@))[j] != content@,
        decreases rows.len() - i,
    {
        if same_text(&rows[i].content, content) {
            assert(fact_contents(views(rows@))[i as int] == content@);
            return true;
        }
        i += 1;
    }
    false
}

impl McStore {
    fn live_contents(&self, project: &str) -> (r: Vec<String>)
        ensures
            views(r@) == active_contents(self@.memories, project@),
    {
        broadcast use group_views;

        let mut r: Vec<String> = Vec::new();
        let mut i: usize = 0;
        while i < self.memories.len()
            invariant
                i <= self.memories.len(),
                views(r@) == active_contents(self@.memories.take(i as int), project@),
            decreases self.memories.len() - i,
        {
            proof {
                take_next(self@.memories, i as int);
            }
            let m = &self.memories[i];
            assert(self@.memories[i as int] == m@);
            if same_text(&m.project_path, project) && is_live_status(&m.status) {
                r.push(m.content.clone());
            }
            i += 1;
        }
        proof {
            take_all(self@.memories);
        }
        r
    }

    fn largest_memory_id(&self) -> (r: i64)
        ensures
            r == max_id(self@.memories),
    {
        broadcast use group_views;

        if self.memories.len() == 0 {
            return 0;
        }
        let mut largest: i64 = self.memories[0].id;
        let mut i: usize = 1;
        assert(self@.memories.take(1)[0] == self.memories@[0]@);
        while i < self.memories.len()
            invariant
                1 <= i <= self.memories.len(),
                largest == max_id(self@.memories.take(i as int)),
            decreases self.memories.len() - i,
        {
            proof {
                take_next(self@.memories, i as int);
                assert(self@.memories[i as int] == self.memories@[i as int]@);
            }
            if self.memories[i].id > largest {
                largest = self.memories[i].id;
            }
            i += 1;
        }
        proof {
            take_all(self@.memories);
        }
        largest
    }

    fn choose_facts(&self, project: &str, facts: &[FactCandidate]) -> (r: Vec<FactCandidate>)
        ensures
            views(r@) == facts_to_store(self@, project@, views(facts@)),
    {
        broadcast use group_views;

        let active = self.live_contents(project);
        let ghost given = views(facts@);
        let mut r: Vec<FactCandidate> = Vec::new();
        let mut i: usize = 0;
        while i < facts.len()
            invariant
                i <= facts.len(),
                given == views(facts@),
                views(r@) == promotable(views(active@), given.take(i as int)),
            decreases facts.len() - i,
        {
            proof {
                take_next(given, i as int);
            }
            let f = &facts[i];
            assert(given[i as int] == f@);
            if !(is_blank(&f.category) || is_blank(&f.content) || list_names(&active, &f.content)
                || names_fact(&r, &f.content)) {
                r.push(f.dup());
            }
            i += 1;
        }
        proof {
            take_all(given);
        }
        r
    }

    /// Stores facts that no live memory of the project says yet as new memories. Nothing is
    /// logged.
    pub fn promote_facts(&mut self, project_path: &str, facts: &[FactCandidate]) -> (r: Result<
        Vec<PromotedRef>,
        McStoreError,
    >)
        ensures
            match r {
                Ok(refs) => {
                    &&& promotion_failure(old(self)@, project_path@, views(facts@)) is None
                    &&& views(refs@) == promoted_refs(
                        promoted_memories(old(self)@, project_path@, views(facts@)),
                    )
                    &&& final(self)@ == with_promoted(old(self)@, project_path@, views(facts@))
                },
                Err(e) => {
                    &&& promotion_failure(old(self)@, project_path@, views(facts@)) matches Some(why)
                        && e == McStoreError::Store(why)
                    &&& final(self)@ == old(self)@
                },
            },
            well_formed(old(self)@) ==> well_formed(final(self)@),
            commands_kept(old(self)@, final(self)@),
    {
        broadcast use group_views;

        let ghost s = self@;
        let chosen = self.choose_facts(project_path, facts);
        let largest: i64 = self.largest_memory_id();
        let n: i128 = chosen.len() as i128;
        if (self.last_memory_id as i128) + n > i64::MAX as i128 || (largest as i128) + n
            >= i64::MAX as i128 {
            return Err(McStoreError::Store(StoreError::Exhausted));
        }
        let ghost wanted = promoted_memories(s, project_path@, views(facts@));
        let mut added: Vec<StoredMemoryFull> = Vec::new();
        let mut refs: Vec<PromotedRef> = Vec::new();
        let mut k: usize = 0;
        while k < chosen.len()
            invariant
                k <= chosen.len(),
                self@ == s,
                largest == max_id(s.memories),
                s.last_memory_id + chosen@.len() <= i64::MAX,
                largest + chosen@.len() < i64::MAX,
                views(chosen@) == facts_to_store(s, project_path@, views(facts@)),
                wanted == promoted_memories(s, project_path@, views(facts@)),
                promotion_failure(s, project_path@, views(facts@)) != Some(StoreError::Exhausted),
                views(added@) == wanted.take(k as int),
                views(refs@) == promoted_refs(wanted).take(k as int),
                forall|j: int|
                    0 <= j < k ==> first_where(
                        s.memories,
                        saying(
                            project_path@,
                            (#[trigger] wanted[j]).category,
                            wanted[j].normalized_hash,
                        ),
                    ) is None,
            decreases chosen.len() - k,
        {
            let f = &chosen[k];
            assert(views(chosen@)[k as int] == f@);
            let id: i64 = ((self.last_memory_id as i128) + 1 + (k as i128)) as i64;
            let nonce: i64 = ((largest as i128) + 1 + (k as i128)) as i64;
            let mut hash = owned("historian-exact:");
            hash.append(&hex_text(stable_content_hash(&f.content), 16));
            hash.append(":");
            hash.append(&i64_text(nonce));
            assert(hash@ == exact_hash(f@.content, nonce as int));
            let mut m = make_memory(
                id,
                project_path,
                &f.category,
                &f.content,
                hash.clone(),
                "historian",
                0,
            );
            m.importance = f.importance;
            m.source_session_id = opt_dup(&f.source_session_id);
            m.expires_at = f.expires_at;
            assert(m@ == wanted[k as int]);
            if find_saying(&self.memories, project_path, &f.category, &hash).is_some() {
                assert(first_where(
                    s.memories,
                    saying(project_path@, wanted[k as int].category, wanted[k as int].normalized_hash),
                ) is Some);
                return Err(McStoreError::Store(StoreError::Constraint));
            }
            proof {
                take_next(wanted, k as int);
                take_next(promoted_refs(wanted), k as int);
            }
            refs.push(PromotedRef { memory_id: id, content: f.content.clone() });
            added.push(m);
            k += 1;
        }
        proof {
            take_all(wanted);
            take_all(promoted_refs(wanted));
            assert(promotion_failure(s, project_path@, views(facts@)) is None);
        }
        let mut more = added;
        self.last_memory_id = ((self.last_memory_id as i128) + n) as i64;
        self.memories.append(&mut more);
        proof {
            if well_formed(s) {
                promoted_kept(s, project_path@, views(facts@));
            }
        }
        Ok(refs)
    }

    // --- seeding ----------------------------------------------------------------------

    /// Stores an active memory under a given number.
    pub fn seed_memory(
        &mut self,
        id: i64,
        project_path: &str,
        category: &str,
        content: &str,
        importance: i64,
    ) -> (r: Result<(), McStoreError>)
        requires
            i32::MIN <= importance <= i32::MAX,
        ensures
            seeded(
                old(self)@,
                final(self)@,
                r is Ok,
                seed_row(id, project_path@, category@, content@, importance as i32, None),
            ),
            r matches Err(e) ==> e == McStoreError::Store(StoreError::Constraint),
            well_formed(old(self)@) ==> well_formed(final(self)@),
            commands_kept(old(self)@, final(self)@),
    {
        self.seed_row(id, project_path, category, content, importance as i32, None)
    }

    /// Stores an active memory that expires under a given number.
    pub fn seed_expiring_memory(
        &mut self,
        id: i64,
        project_path: &str,
        category: &str,
        content: &str,
        importance: i64,
        expires_at: i64,
    ) -> (r: Result<(), McStoreError>)
        requires
            i32::MIN <= importance <= i32::MAX,
        ensures
            seeded(
                old(self)@,
                final(self)@,
                r is Ok,
                seed_row(id, project_path@, category@, content@, importance as i32, Some(expires_at)),
            ),
            r matches Err(e) ==> e == McStoreError::Store(StoreError::Constraint),
            well_formed(old(self)@) ==> well_formed(final(self)@),
            commands_kept(old(self)@, final(self)@),
    {
        self.seed_row(id, project_path, category, content, importance as i32, Some(expires_at))
    }

    fn seed_row(
        &mut self,
        id: i64,
        project_path: &str,
        category: &str,
        content: &str,
        importance: i32,
        expires_at: Option<i64>,
    ) -> (r: Result<(), McStoreError>)
        ensures
            seeded(
                old(self)@,
                final(self)@,
                r is Ok,
                seed_row(id, project_path@, category@, content@, importance, expires_at),
            ),
            r matches Err(e) ==> e == McStoreError::Store(StoreError::Constraint),
            well_formed(old(self)@) ==> well_formed(final(self)@),
    {
        broadcast use group_views;

        let mut hash = owned("h");
        hash.append(&i64_text(id));
        if find_memory(&self.memories, id).is_some() || find_saying(
            &self.memories,
            project_path,
            category,
            &hash,
        ).is_some() {
            return Err(McStoreError::Store(StoreError::Constraint));
        }
        let mut m = make_memory(id, project_path, category, content, hash, "historian", 0);
        m.importance = Some(importance);
        m.expires_at = expires_at;
        assert(m@ == seed_row(id, project_path@, category@, content@, importance, expires_at));
        proof {
            if well_formed(old(self)@) {
                memory_seeded(old(self)@, m@);
            }
        }
        self.memories.push(m);
        if self.last_memory_id < id {
            self.last_memory_id = id;
        }
        Ok(())
    }

    /// Appends a row to the mutation log.
    pub fn seed_mutation(
        &mut self,
        project_path: &str,
        mutation_type: &str,
        target_memory_id: i64,
        new_content: &str,
    ) -> (r: Result<(), McStoreError>)
        ensures
            match r {
                Ok(_) => {
                    &&& loggable(mutation_type@)
                    &&& old(self)@.last_mutation_id < i64::MAX
                    &&& final(self)@ == (McStoreModel {
                        mutations: old(self)@.mutations.push(
                            log_row(
                                (old(self)@.last_mutation_id + 1) as i64,
                                project_path@,
                                mutation_type@,
                                target_memory_id,
                                None,
                                None,
                                Some(new_content@),
                                0,
                            ),
                        ),
                        last_mutation_id: (old(self)@.last_mutation_id + 1) as i64,
                        ..old(self)@
                    })
                },
                Err(e) => {
                    &&& final(self)@ == old(self)@
                    &&& e == McStoreError::Store(
                        if old(self)@.last_mutation_id == i64::MAX {
                            StoreError::Exhausted
                        } else {
                            StoreError::Constraint
                        },
                    )
                    &&& old(self)@.last_mutation_id == i64::MAX || !loggable(mutation_type@)
                },
            },
            well_formed(old(self)@) ==> well_formed(final(self)@),
            commands_kept(old(self)@, final(self)@),
    {
        if self.last_mutation_id == i64::MAX {
            return Err(McStoreError::Store(StoreError::Exhausted));
        }
        if !(same_text(mutation_type, "archive") || same_text(mutation_type, "delete")
            || same_text(mutation_type, "superseded") || same_text(mutation_type, "update")) {
            return Err(McStoreError::Store(StoreError::Constraint));
        }
        self.log_mutation(
            project_path,
            mutation_type,
            target_memory_id,
            None,
            None,
            Some(new_content),
            0,
        );
        Ok(())
    }
}

/// The memory that seeding stores.
pub open spec fn seed_row(
    id: i64,
    project: Seq<char>,
    category: Seq<char>,
    content: Seq<char>,
    importance: i32,
    expires_at: Option<i64>,
) -> StoredMemoryFullModel {
    StoredMemoryFullModel {
        importance: Some(importance),
        expires_at,
        ..new_memory(
            id,
            project,
            category,
            content,
            "h"@ + int_text(id as int),
            "historian"@,
            0,
        )
    }
}

/// A memory was seeded, or refused because its number or its hash is taken.
pub open spec fn seeded(
    before: McStoreModel,
    after: McStoreModel,
    done: bool,
    m: StoredMemoryFullModel,
) -> bool {
    let free = first_where(before.memories, with_id(m.id)) is None && first_where(
        before.memories,
        saying(m.project_path, m.category, m.normalized_hash),
    ) is None;
    &&& done == free
    &&& after == (if free {
        McStoreModel {
            memories: before.memories.push(m),
            last_memory_id: if before.last_memory_id < m.id {
                m.id
            } else {
                before.last_memory_id
            },
            ..before
        }
    } else {
        before
    })
}

} // verus!
