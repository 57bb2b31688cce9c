//! Command recipes: the template registry built from the configuration and
//! the placeholder resolution that turns a template into a concrete command.
//!
//! A recipe is an ordered sequence of whitespace-separated tokens. The two
//! recognized placeholders are `$source` and `$target`; any other token,
//! placeholder-shaped or not, passes through literally. Each supported
//! language owns one slot per registry; an empty slot means the registry has
//! no command for that language (on the compile side: an interpreted
//! language).

use vstd::prelude::*;

use crate::text::split_ascii_ws;
use crate::text::split_ws;
use crate::text::str_eq;

verus! {

/// The placeholder that resolves to the staged source path.
pub open spec fn source_token() -> Seq<char> {
    "$source"@
}

/// The placeholder that resolves to the build-target path.
pub open spec fn target_token() -> Seq<char> {
    "$target"@
}

/// Resolution of one template token: `$source` becomes `src`, `$target`
/// becomes `tgt`, anything else stands as written.
pub open spec fn subst_token(t: Seq<char>, src: Seq<char>, tgt: Seq<char>) -> Seq<char> {
    if t == source_token() {
        src
    } else if t == target_token() {
        tgt
    } else {
        t
    }
}

/// Resolve every token of a template against a source path and a target
/// path. This is the whole placeholder grammar: exactly the slots that held
/// `$source` now hold `src`, exactly the slots that held `$target` now hold
/// `tgt`, and every other slot is unchanged.
pub fn resolve_tokens(template: &Vec<String>, src: &str, tgt: &str) -> (r: Vec<String>)
    ensures
        r.deep_view().len() == template.deep_view().len(),
        forall|i: int|
            0 <= i < template.deep_view().len() ==> r.deep_view()[i] == subst_token(
                template.deep_view()[i],
                src@,
                tgt@,
            ),
        r.deep_view() == spec_resolved(template.deep_view(), src@, tgt@),
{
    let mut r: Vec<String> = Vec::new();
    let mut i: usize = 0;
    while i < template.len()
        invariant
            i <= template.len(),
            r@.len() == i,
            forall|j: int| 0 <= j < i ==> #[trigger] r@[j]@ == subst_token(template@[j]@, src@, tgt@),
        decreases template.len() - i,
    {
        let token: &String = &template[i];
        if str_eq(token.as_str(), "$source") {
            r.push(src.to_owned());
        } else if str_eq(token.as_str(), "$target") {
            r.push(tgt.to_owned());
        } else {
            r.push(token.clone());
        }
        i = i + 1;
    }
    proof {
        assert forall|j: int| 0 <= j < template.deep_view().len() implies r.deep_view()[j]
            == subst_token(template.deep_view()[j], src@, tgt@) by {
            assert(r.deep_view()[j] == r@[j]@);
            assert(template.deep_view()[j] == template@[j]@);
        }
        assert(r.deep_view() =~= spec_resolved(template.deep_view(), src@, tgt@));
    }
    r
}

/// The tokens of a template resolved against a source path and a target
/// path.
pub open spec fn spec_resolved(template: Seq<Seq<char>>, src: Seq<char>, tgt: Seq<char>) -> Seq<
    Seq<char>,
> {
    template.map_values(|t: Seq<char>| subst_token(t, src, tgt))
}

/// The resolution law: against a staged source, the resolved command holds
/// the source path exactly in the slots where the template had `$source`,
/// the target path exactly where it had `$target`, and the template's own
/// token in every other slot.
pub proof fn lemma_recipe_resolution(template: Seq<Seq<char>>, src: Seq<char>, tgt: Seq<char>)
    ensures
        spec_resolved(template, src, tgt).len() == template.len(),
        forall|i: int|
            0 <= i < template.len() ==> #[trigger] spec_resolved(template, src, tgt)[i] == (
            if template[i] == source_token() {
                src
            } else if template[i] == target_token() {
                tgt
            } else {
                template[i]
            }),
{
}

/// A registry slot: a supported language together with its recipe, if the
/// configuration gave it one.
pub type RegistrySlot = (String, Option<Vec<String>>);

/// First-match lookup among registry slots. The outer option distinguishes
/// an unsupported language from a supported one without a recipe.
pub open spec fn spec_lookup(entries: Seq<RegistrySlot>, lang: Seq<char>) -> Option<
    Option<Seq<Seq<char>>>,
>
    decreases entries.len(),
{
    if entries.len() == 0 {
        Option::None
    } else if entries[0].0@ == lang {
        Option::Some(entries[0].1.deep_view())
    } else {
        spec_lookup(entries.skip(1), lang)
    }
}

/// The command string that the configuration assigns to `lang`: the last
/// entry wins, as repeated insertion into a map would have it.
pub open spec fn last_command(cmds: Seq<(Seq<char>, Seq<char>)>, lang: Seq<char>) -> Option<
    Seq<char>,
>
    decreases cmds.len(),
{
    if cmds.len() == 0 {
        Option::None
    } else if cmds.last().0 == lang {
        Option::Some(cmds.last().1)
    } else {
        last_command(cmds.drop_last(), lang)
    }
}

/// What a registry built from the `languages` list and the command section
/// `cmds` answers for `lang`: nothing for an unlisted language; otherwise
/// the tokenization of the last command the section assigns to it, or an
/// empty slot if the section assigns none.
pub open spec fn spec_registry_answer(
    langs: Seq<Seq<char>>,
    cmds: Seq<(Seq<char>, Seq<char>)>,
    lang: Seq<char>,
) -> Option<Option<Seq<Seq<char>>>> {
    if !langs.contains(lang) {
        Option::None
    } else {
        match last_command(cmds, lang) {
            Option::Some(c) => Option::Some(Option::Some(split_ws(c))),
            Option::None => Option::Some(Option::None),
        }
    }
}

/// A read-mostly mapping from language tag to optional command template,
/// built once from the configuration.
pub struct Registry {
    pub entries: Vec<RegistrySlot>,
}

impl Registry {
    /// Well-formedness: one slot per language.
    pub open spec fn wf(self) -> bool {
        forall|i: int, j: int|
            0 <= i < j < self.entries@.len() ==> self.entries@[i].0@ != self.entries@[j].0@
    }

    /// What this registry answers for `lang`.
    pub open spec fn spec_get(self, lang: Seq<char>) -> Option<Option<Seq<Seq<char>>>> {
        spec_lookup(self.entries@, lang)
    }

    /// Position of the slot that owns `lang`, if any.
    fn find_slot(&self, lang: &str) -> (r: Option<usize>)
        ensures
            match r {
                Option::Some(idx) => {
                    &&& idx < self.entries@.len()
                    &&& self.entries@[idx as int].0@ == lang@
                    &&& forall|j: int| 0 <= j < idx ==> self.entries@[j].0@ != lang@
                    &&& self.spec_get(lang@) == Option::Some(
                        self.entries@[idx as int].1.deep_view(),
                    )
                },
                Option::None => {
                    &&& self.spec_get(lang@) is None
                    &&& forall|j: int| 0 <= j < self.entries@.len() ==> self.entries@[j].0@ != lang@
                },
            },
    {
        let n: usize = self.entries.len();
        let mut i: usize = 0;
        proof {
            assert(self.entries@.skip(0) =~= self.entries@);
        }
        while i < n
            invariant
                i <= n,
                n == self.entries@.len(),
                forall|j: int| 0 <= j < i ==> self.entries@[j].0@ != lang@,
                spec_lookup(self.entries@.skip(i as int), lang@) == spec_lookup(
                    self.entries@,
                    lang@,
                ),
            decreases n - i,
        {
            if str_eq(self.entries[i].0.as_str(), lang) {
                assert(self.entries@.skip(i as int)[0] == self.entries@[i as int]);
                return Option::Some(i);
            }
            assert(self.entries@.skip(i as int).skip(1) =~= self.entries@.skip(i as int + 1));
            assert(self.entries@.skip(i as int)[0] == self.entries@[i as int]);
            i = i + 1;
        }
        assert(self.entries@.skip(n as int).len() == 0);
        Option::None
    }

    /// Look a language up: `None` for an unsupported language, `Some(None)`
    /// for a supported language without a recipe, `Some(Some(template))`
    /// otherwise.
    pub fn lookup(&self, lang: &str) -> (r: Option<Option<Vec<String>>>)
        ensures
            r.deep_view() == self.spec_get(lang@),
    {
        match self.find_slot(lang) {
            Option::Some(idx) => {
                match &self.entries[idx].1 {
                    Option::Some(template) => Option::Some(
                        Option::Some(clone_string_vec(template)),
                    ),
                    Option::None => Option::Some(Option::None),
                }
            },
            Option::None => Option::None,
        }
    }

    /// Build a registry from the configuration sections: a slot for every
    /// listed language, filled with the tokenization of the command the
    /// section assigns to it, the last assignment winning.
    pub fn build(languages: &Vec<String>, cmds: &Vec<(String, String)>) -> (r: Registry)
        ensures
            r.wf(),
            forall|l: Seq<char>|
                #[trigger] r.spec_get(l) == spec_registry_answer(
                    languages.deep_view(),
                    cmds.deep_view(),
                    l,
                ),
    {
        let mut r = Registry { entries: Vec::new() };
        let mut i: usize = 0;
        while i < languages.len()
            invariant
                i <= languages.len(),
                r.wf(),
                forall|l: Seq<char>|
                    #[trigger] spec_lookup(r.entries@, l) == (if languages.deep_view().subrange(
                        0,
                        i as int,
                    ).contains(l) {
                        Option::Some(Option::<Seq<Seq<char>>>::None)
                    } else {
                        Option::<Option<Seq<Seq<char>>>>::None
                    }),
            decreases languages.len() - i,
        {
            let lang: &String = &languages[i];
            let ghost old_entries = r.entries@;
            match r.find_slot(lang.as_str()) {
                Option::Some(_) => {},
                Option::None => {
                    let slot: RegistrySlot = (lang.clone(), Option::None);
                    let ghost slot_snap = slot;
                    r.entries.push(slot);
                    proof {
                        assert forall|l: Seq<char>| #[trigger]
                            spec_lookup(r.entries@, l) == (if l == lang@ {
                                Option::Some(Option::<Seq<Seq<char>>>::None)
                            } else {
                                spec_lookup(old_entries, l)
                            }) by {
                            lemma_lookup_push(old_entries, slot_snap, l);
                        }
                    }
                },
            }
            proof {
                let langs = languages.deep_view();
                assert(langs.subrange(0, i as int).push(langs[i as int]) =~= langs.subrange(
                    0,
                    i as int + 1,
                ));
                assert forall|l: Seq<char>| #[trigger]
                    spec_lookup(r.entries@, l) == (if langs.subrange(0, i as int + 1).contains(
                        l,
                    ) {
                        Option::Some(Option::<Seq<Seq<char>>>::None)
                    } else {
                        Option::<Option<Seq<Seq<char>>>>::None
                    }) by {
                    let pre = langs.subrange(0, i as int);
                    let post = langs.subrange(0, i as int + 1);
                    if pre.contains(l) {
                        let m = choose|m: int| 0 <= m < pre.len() && pre[m] == l;
                        assert(post[m] == l);
                    }
                    if l == lang@ {
                        assert(post[i as int] == l);
                    }
                    if post.contains(l) && l != lang@ {
                        let m = choose|m: int| 0 <= m < post.len() && post[m] == l;
                        assert(m < i ==> pre[m] == l);
                    }
                }
            }
            i = i + 1;
        }
        proof {
            assert(languages.deep_view().subrange(0, languages@.len() as int)
                =~= languages.deep_view());
        }
        let mut k: usize = 0;
        while k < cmds.len()
            invariant
                k <= cmds.len(),
                r.wf(),
                forall|l: Seq<char>|
                    #[trigger] spec_lookup(r.entries@, l) == spec_registry_answer(
                        languages.deep_view(),
                        cmds.deep_view().subrange(0, k as int),
                        l,
                    ),
            decreases cmds.len() - k,
        {
            let key: &String = &cmds[k].0;
            let ghost old_entries = r.entries@;
            match r.find_slot(key.as_str()) {
                Option::Some(idx) => {
                    let template: Vec<String> = split_ascii_ws(cmds[k].1.as_str());
                    let slot: RegistrySlot = (key.clone(), Option::Some(template));
                    let ghost slot_snap = slot;
                    r.entries[idx] = slot;
                    proof {
                        assert forall|m: int|
                            0 <= m < r.entries@.len() ==> #[trigger] r.entries@[m].0@
                            == old_entries[m].0@ by {}
                        assert forall|l: Seq<char>| #[trigger]
                            spec_lookup(r.entries@, l) == (if l == key@ {
                                Option::Some(Option::Some(split_ws(cmds[k as int].1@)))
                            } else {
                                spec_lookup(old_entries, l)
                            }) by {
                            lemma_lookup_update(old_entries, idx as int, slot_snap, l);
                        }
                    }
                },
                Option::None => {},
            }
            proof {
                assert(cmds.deep_view().subrange(0, k as int).push(cmds.deep_view()[k as int])
                    =~= cmds.deep_view().subrange(0, k as int + 1));
                assert forall|l: Seq<char>| #[trigger]
                    spec_lookup(r.entries@, l) == spec_registry_answer(
                        languages.deep_view(),
                        cmds.deep_view().subrange(0, k as int + 1),
                        l,
                    ) by {
                    let pre = cmds.deep_view().subrange(0, k as int);
                    let post = cmds.deep_view().subrange(0, k as int + 1);
                    assert(post.drop_last() =~= pre);
                    assert(post.last() == (cmds[k as int].0@, cmds[k as int].1@));
                    if spec_registry_answer(languages.deep_view(), post, l) != spec_registry_answer(
                        languages.deep_view(),
                        pre,
                        l,
                    ) {
                        assert(l == key@ && languages.deep_view().contains(l));
                    }
                }
            }
            k = k + 1;
        }
        proof {
            assert(cmds.deep_view().subrange(0, cmds@.len() as int) =~= cmds.deep_view());
        }
        r
    }
}

/// Clone a vector of strings.
pub fn clone_string_vec(v: &Vec<String>) -> (r: Vec<String>)
    ensures
        r.deep_view() == v.deep_view(),
{
    let mut r: Vec<String> = Vec::new();
    let mut i: usize = 0;
    while i < v.len()
        invariant
            i <= v@.len(),
            r.deep_view() =~= v.deep_view().subrange(0, i as int),
        decreases v@.len() - i,
    {
        r.push(v[i].clone());
        assert(r.deep_view() =~= v.deep_view().subrange(0, i as int).push(v.deep_view()[i as int]));
        assert(v.deep_view().subrange(0, i as int).push(v.deep_view()[i as int]) =~= v.deep_view()
            .subrange(0, i as int + 1));
        i = i + 1;
    }
    assert(v.deep_view().subrange(0, v@.len() as int) =~= v.deep_view());
    r
}

/// Appending a slot only answers for a language no earlier slot owns.
proof fn lemma_lookup_push(entries: Seq<RegistrySlot>, slot: RegistrySlot, l: Seq<char>)
    ensures
        spec_lookup(entries.push(slot), l) == (if spec_lookup(entries, l) is Some {
            spec_lookup(entries, l)
        } else if slot.0@ == l {
            Option::Some(slot.1.deep_view())
        } else {
            Option::<Option<Seq<Seq<char>>>>::None
        }),
    decreases entries.len(),
{
    let pushed = entries.push(slot);
    if entries.len() == 0 {
        assert(pushed[0] == slot);
        assert(pushed.skip(1) =~= Seq::<RegistrySlot>::empty());
        if slot.0@ == l {
            assert(spec_lookup(pushed, l) == Option::Some(slot.1.deep_view()));
        } else {
            assert(spec_lookup(pushed, l) == spec_lookup(pushed.skip(1), l));
            assert(spec_lookup(pushed, l) is None);
        }
    } else {
        assert(pushed[0] == entries[0]);
        assert(pushed.skip(1) =~= entries.skip(1).push(slot));
        lemma_lookup_push(entries.skip(1), slot, l);
        if entries[0].0@ == l {
            assert(spec_lookup(pushed, l) == Option::Some(entries[0].1.deep_view()));
            assert(spec_lookup(entries, l) == Option::Some(entries[0].1.deep_view()));
        } else {
            assert(spec_lookup(pushed, l) == spec_lookup(entries.skip(1).push(slot), l));
            assert(spec_lookup(entries, l) == spec_lookup(entries.skip(1), l));
        }
    }
}

/// Overwriting the first slot that owns a language changes the answer for
/// that language alone.
proof fn lemma_lookup_update(entries: Seq<RegistrySlot>, idx: int, slot: RegistrySlot, l: Seq<char>)
    requires
        0 <= idx < entries.len(),
        slot.0@ == entries[idx].0@,
        forall|j: int| 0 <= j < idx ==> entries[j].0@ != entries[idx].0@,
    ensures
        spec_lookup(entries.update(idx, slot), l) == (if l == slot.0@ {
            Option::Some(slot.1.deep_view())
        } else {
            spec_lookup(entries, l)
        }),
    decreases entries.len(),
{
    let upd = entries.update(idx, slot);
    if idx == 0 {
        assert(upd[0] == slot);
        assert(upd.skip(1) =~= entries.skip(1));
    } else {
        assert(upd[0] == entries[0]);
        assert(upd.skip(1) =~= entries.skip(1).update(idx - 1, slot));
        assert forall|j: int| 0 <= j < idx - 1 implies #[trigger] entries.skip(1)[j].0@
            != entries.skip(1)[idx - 1].0@ by {
            assert(entries.skip(1)[j] == entries[j + 1]);
            assert(entries.skip(1)[idx - 1] == entries[idx]);
        }
        lemma_lookup_update(entries.skip(1), idx - 1, slot, l);
    }
    assert(spec_lookup(entries.update(idx, slot), l) =~~= (if l == slot.0@ {
        Option::Some(slot.1.deep_view())
    } else {
        spec_lookup(entries, l)
    }));
}

} // verus!
