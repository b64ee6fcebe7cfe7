//! The pet-fighting game: every account may own one pet, pets are known by
//! unique names, start at level 1, can be levelled up and can fight.

use vstd::prelude::*;
use crate::account::AccountId;
use crate::text_map::TextMap;

verus! {

/// The smallest attached deposit, in yoctoNEAR, that pays for a level-up.
pub const LEVELUP_MIN_DEPOSIT: u128 = 10;

/// The game's state: who owns which pet, and each pet's level.
pub struct FightView {
    /// account id -> name of the account's pet
    pub accounts: Map<Seq<char>, Seq<char>>,
    /// pet name -> level
    pub animals: Map<Seq<char>, u32>,
}

impl FightView {
    /// The game with no pets.
    pub open spec fn empty() -> FightView {
        FightView { accounts: Map::empty(), animals: Map::empty() }
    }

    /// Every owned name is a pet, every pet has exactly one owner, and every
    /// pet has level at least 1.
    pub open spec fn wf(self) -> bool {
        &&& self.accounts.dom().finite()
        &&& self.animals.dom().finite()
        &&& forall|a: Seq<char>| #[trigger] self.accounts.contains_key(a)
            ==> self.animals.contains_key(self.accounts[a])
        &&& forall|n: Seq<char>| #[trigger] self.animals.contains_key(n)
            ==> exists|a: Seq<char>| #[trigger] self.accounts.contains_key(a) && self.accounts[a] == n
        &&& forall|a: Seq<char>, b: Seq<char>|
            #[trigger] self.accounts.contains_key(a) && #[trigger] self.accounts.contains_key(b)
                && self.accounts[a] == self.accounts[b] ==> a == b
        &&& forall|n: Seq<char>| #[trigger] self.animals.contains_key(n) ==> self.animals[n] >= 1
    }

    /// Whether `add_first` by `signer` for a pet called `name` succeeds.
    pub open spec fn add_first_succeeds(self, signer: Seq<char>, name: Seq<char>) -> bool {
        !self.accounts.contains_key(signer) && !self.animals.contains_key(name)
    }

    /// `add_first`: the new state and the reply.
    pub open spec fn add_first(self, signer: Seq<char>, name: Seq<char>) -> (FightView, Seq<char>) {
        if self.accounts.contains_key(signer) {
            (self, "already exist"@)
        } else if self.animals.contains_key(name) {
            (self, "exist name"@)
        } else {
            (
                FightView {
                    accounts: self.accounts.insert(signer, name),
                    animals: self.animals.insert(name, 1),
                },
                "success"@,
            )
        }
    }

    /// The level of the pet called `name`, 0 for an unknown name.
    pub open spec fn level_of(self, name: Seq<char>) -> u32 {
        if self.animals.contains_key(name) {
            self.animals[name]
        } else {
            0
        }
    }

    /// The name of `signer`'s pet, or the reply for an account without one.
    pub open spec fn pet_of(self, signer: Seq<char>) -> Seq<char> {
        if self.accounts.contains_key(signer) {
            self.accounts[signer]
        } else {
            "NO pets"@
        }
    }

    /// `remove_animal`: the new state and the reply.
    pub open spec fn remove_animal(self, signer: Seq<char>) -> (FightView, Seq<char>) {
        if !self.accounts.contains_key(signer) {
            (self, "no chongwu"@)
        } else {
            (
                FightView {
                    accounts: self.accounts.remove(signer),
                    animals: self.animals.remove(self.accounts[signer]),
                },
                "success"@,
            )
        }
    }

    /// The outcome of a fight of pet `mine` against pet `enemy`.
    pub open spec fn fight(self, mine: Seq<char>, enemy: Seq<char>) -> Seq<char> {
        if !self.animals.contains_key(mine) || !self.animals.contains_key(enemy) {
            "you have no animals"@
        } else if self.animals[mine] > self.animals[enemy] {
            "you win"@
        } else if self.animals[mine] == self.animals[enemy] {
            "equal"@
        } else {
            "you lost"@
        }
    }

    /// Whether `levelup` of `name` can run without the level overflowing.
    pub open spec fn levelup_fits(self, name: Seq<char>) -> bool {
        self.animals.contains_key(name) ==> self.animals[name] < u32::MAX
    }

    /// `levelup`: the new state and the reply.
    pub open spec fn levelup(self, name: Seq<char>) -> (FightView, Seq<char>) {
        if !self.animals.contains_key(name) {
            (self, "no animal"@)
        } else {
            (
                FightView {
                    accounts: self.accounts,
                    animals: self.animals.insert(name, (self.animals[name] + 1) as u32),
                },
                "success"@,
            )
        }
    }

    /// Adds pet `name` of `owner` at `level`, as when restoring a saved game;
    /// `None` when the level is 0, the account has a pet or the name is taken.
    pub open spec fn with_pet(self, owner: Seq<char>, name: Seq<char>, level: u32) -> Option<FightView> {
        if level == 0 || self.accounts.contains_key(owner) || self.animals.contains_key(name) {
            None
        } else {
            Some(
                FightView {
                    accounts: self.accounts.insert(owner, name),
                    animals: self.animals.insert(name, level),
                },
            )
        }
    }

    /// The game holding the listed pets (owner, name, level), added in order.
    pub open spec fn restore(pets: Seq<(Seq<char>, Seq<char>, u32)>) -> Option<FightView>
        decreases pets.len(),
    {
        if pets.len() == 0 {
            Some(FightView::empty())
        } else {
            match FightView::restore(pets.drop_last()) {
                Some(v) => v.with_pet(pets.last().0, pets.last().1, pets.last().2),
                None => None,
            }
        }
    }
}

/// The replies of the game are distinct texts.
proof fn lemma_replies_distinct()
    ensures
        "success"@ != "already exist"@,
        "success"@ != "exist name"@,
        "already exist"@ != "exist name"@,
        "success"@ != "no chongwu"@,
        "success"@ != "no animal"@,
        "you win"@ != "you lost"@,
        "you win"@ != "equal"@,
        "you lost"@ != "equal"@,
        "you have no animals"@ != "you win"@,
        "you have no animals"@ != "you lost"@,
        "you have no animals"@ != "equal"@,
{
    reveal_strlit("success");
    reveal_strlit("already exist");
    reveal_strlit("exist name");
    reveal_strlit("no chongwu");
    reveal_strlit("no animal");
    reveal_strlit("you win");
    reveal_strlit("you lost");
    reveal_strlit("equal");
    reveal_strlit("you have no animals");
    assert("success"@[0] != "already exist"@[0]);
    assert("success"@[0] != "exist name"@[0]);
    assert("already exist"@[0] != "exist name"@[0]);
    assert("success"@[0] != "no chongwu"@[0]);
    assert("success"@[0] != "no animal"@[0]);
    assert("you win"@.len() != "you lost"@.len());
    assert("you win"@[0] != "equal"@[0]);
    assert("you lost"@[0] != "equal"@[0]);
    assert("you have no animals"@.len() != "you win"@.len());
    assert("you have no animals"@.len() != "you lost"@.len());
    assert("you have no animals"@[0] != "equal"@[0]);
}

/// Every operation of the game keeps it consistent: each owned name is a pet,
/// each pet has exactly one owner, and no pet is below level 1.
pub proof fn law_operations_keep_game_consistent(v: FightView, signer: Seq<char>, name: Seq<char>)
    requires
        v.wf(),
    ensures
        FightView::empty().wf(),
        v.add_first(signer, name).0.wf(),
        v.remove_animal(signer).0.wf(),
        v.levelup_fits(name) ==> v.levelup(name).0.wf(),
{
    let e = FightView::empty();
    assert(e.accounts.dom() =~= Set::empty());
    assert(e.animals.dom() =~= Set::empty());
    lemma_add_first_keeps_wf(v, signer, name);
    lemma_remove_keeps_wf(v, signer);
    if v.levelup_fits(name) {
        lemma_levelup_keeps_wf(v, name);
    }
}

proof fn lemma_add_first_keeps_wf(v: FightView, signer: Seq<char>, name: Seq<char>)
    requires
        v.wf(),
    ensures
        v.add_first(signer, name).0.wf(),
{
    if v.add_first_succeeds(signer, name) {
        lemma_with_pet_keeps_wf(v, signer, name, 1);
        assert(v.add_first(signer, name).0 == v.with_pet(signer, name, 1).unwrap());
    }
}

proof fn lemma_remove_keeps_wf(v: FightView, signer: Seq<char>)
    requires
        v.wf(),
    ensures
        v.remove_animal(signer).0.wf(),
{
    if v.accounts.contains_key(signer) {
        let w = v.remove_animal(signer).0;
        let gone = v.accounts[signer];
        assert forall|a: Seq<char>| #[trigger] w.accounts.contains_key(a)
            implies w.animals.contains_key(w.accounts[a]) by {
            assert(v.accounts.contains_key(a) && v.accounts.contains_key(signer));
        }
        assert forall|n: Seq<char>| #[trigger] w.animals.contains_key(n)
            implies exists|a: Seq<char>| #[trigger] w.accounts.contains_key(a) && w.accounts[a] == n by {
            let a = choose|a: Seq<char>| #[trigger] v.accounts.contains_key(a) && v.accounts[a] == n;
            assert(a != signer);
            assert(w.accounts.contains_key(a));
        }
    }
}

proof fn lemma_levelup_keeps_wf(v: FightView, name: Seq<char>)
    requires
        v.wf(),
        v.levelup_fits(name),
    ensures
        v.levelup(name).0.wf(),
{
    if v.animals.contains_key(name) {
        let w = v.levelup(name).0;
        assert forall|n: Seq<char>| #[trigger] w.animals.contains_key(n)
            implies exists|a: Seq<char>| #[trigger] w.accounts.contains_key(a) && w.accounts[a] == n by {
            assert(v.animals.contains_key(n));
            let a = choose|a: Seq<char>| #[trigger] v.accounts.contains_key(a) && v.accounts[a] == n;
            assert(w.accounts.contains_key(a));
        }
    }
}

/// `add_first` answers "success" exactly when the account has no pet yet and
/// the name is free; otherwise the state is unchanged.
pub proof fn law_add_first_reply(v: FightView, signer: Seq<char>, name: Seq<char>)
    ensures
        (v.add_first(signer, name).1 == "success"@) == v.add_first_succeeds(signer, name),
        !v.add_first_succeeds(signer, name) ==> v.add_first(signer, name).0 == v,
{
    lemma_replies_distinct();
}

/// A new pet starts at level 1 and is the pet of the account that added it.
pub proof fn law_new_pet_starts_at_level_one(v: FightView, signer: Seq<char>, name: Seq<char>)
    requires
        v.add_first_succeeds(signer, name),
    ensures
        v.add_first(signer, name).0.level_of(name) == 1,
        v.add_first(signer, name).0.pet_of(signer) == name,
{
}

/// An account owns at most one pet: once `add_first` succeeded, a second one by
/// the same account answers "already exist" and changes nothing.
pub proof fn law_one_pet_per_account(v: FightView, signer: Seq<char>, name: Seq<char>, other: Seq<char>)
    requires
        v.add_first_succeeds(signer, name),
    ensures
        ({
            let w = v.add_first(signer, name).0;
            w.add_first(signer, other) == (w, "already exist"@)
        }),
{
}

/// Removing the pet just added gives back the game as it was before.
pub proof fn law_remove_undoes_add_first(v: FightView, signer: Seq<char>, name: Seq<char>)
    requires
        v.add_first_succeeds(signer, name),
    ensures
        v.add_first(signer, name).0.remove_animal(signer) == (v, "success"@),
{
    let w = v.add_first(signer, name).0;
    assert(w.accounts.remove(signer) =~= v.accounts);
    assert(w.animals.remove(name) =~= v.animals);
}

/// A level-up raises the pet's level by one and leaves the other pets and the
/// owners as they were; an unknown name changes nothing.
pub proof fn law_levelup_raises_level_by_one(v: FightView, name: Seq<char>, other: Seq<char>)
    requires
        v.levelup_fits(name),
    ensures
        v.animals.contains_key(name) ==> v.levelup(name).0.level_of(name) == v.level_of(name) + 1,
        other != name ==> v.levelup(name).0.level_of(other) == v.level_of(other),
        v.levelup(name).0.accounts == v.accounts,
        !v.animals.contains_key(name) ==> v.levelup(name) == (v, "no animal"@),
{
}

/// Fights are antisymmetric: one pet wins exactly when the other loses, and a
/// draw is a draw both ways.
pub proof fn law_fight_antisymmetric(v: FightView, a: Seq<char>, b: Seq<char>)
    ensures
        (v.fight(a, b) == "you win"@) == (v.fight(b, a) == "you lost"@),
        (v.fight(a, b) == "equal"@) == (v.fight(b, a) == "equal"@),
        v.fight(a, a) == "equal"@ || v.fight(a, a) == "you have no animals"@,
{
    lemma_replies_distinct();
}

proof fn lemma_with_pet_keeps_wf(v: FightView, owner: Seq<char>, name: Seq<char>, level: u32)
    requires
        v.wf(),
    ensures
        v.with_pet(owner, name, level) matches Some(w) ==> w.wf(),
{
    if v.with_pet(owner, name, level) is Some {
        let w = v.with_pet(owner, name, level).unwrap();
        assert forall|n: Seq<char>| #[trigger] w.animals.contains_key(n)
            implies exists|a: Seq<char>| #[trigger] w.accounts.contains_key(a) && w.accounts[a] == n by {
            if n == name {
                assert(w.accounts.contains_key(owner));
            } else {
                let a = choose|a: Seq<char>| #[trigger] v.accounts.contains_key(a) && v.accounts[a] == n;
                assert(w.accounts.contains_key(a));
            }
        }
        assert forall|a: Seq<char>, b: Seq<char>|
            #[trigger] w.accounts.contains_key(a) && #[trigger] w.accounts.contains_key(b)
                && w.accounts[a] == w.accounts[b] implies a == b by {
            if a != owner && b == owner {
                assert(v.animals.contains_key(v.accounts[a]));
            }
            if a == owner && b != owner {
                assert(v.animals.contains_key(v.accounts[b]));
            }
        }
    }
}

proof fn lemma_restore_stays_none(pets: Seq<(Seq<char>, Seq<char>, u32)>, n: int)
    requires
        0 <= n <= pets.len(),
        FightView::restore(pets.take(n)) is None,
    ensures
        FightView::restore(pets) is None,
    decreases pets.len() - n,
{
    if n < pets.len() {
        assert(pets.take(n + 1).drop_last() =~= pets.take(n));
        lemma_restore_stays_none(pets, n + 1);
    } else {
        assert(pets.take(n) =~= pets);
    }
}

/// `pets` lists the pets of `v` as (owner, name, level): one entry per
/// account, each matching the game.
pub open spec fn lists_pets_of(pets: Seq<(Seq<char>, Seq<char>, u32)>, v: FightView) -> bool {
    &&& forall|i: int| 0 <= i < pets.len() ==> {
        &&& #[trigger] v.accounts.contains_key(pets[i].0)
        &&& v.accounts[pets[i].0] == pets[i].1
        &&& v.animals[pets[i].1] == pets[i].2
    }
    &&& forall|a: Seq<char>| #[trigger] v.accounts.contains_key(a)
        ==> exists|i: int| 0 <= i < pets.len() && #[trigger] pets[i].0 == a
    &&& forall|i: int, j: int| 0 <= i < pets.len() && 0 <= j < pets.len() && i != j
        ==> #[trigger] pets[i].0 != #[trigger] pets[j].0
}

/// The part of `v` made of the first `n` listed pets.
spec fn listed_part(pets: Seq<(Seq<char>, Seq<char>, u32)>, v: FightView, n: int) -> FightView {
    FightView {
        accounts: Map::new(
            |a: Seq<char>| exists|i: int| 0 <= i < n && #[trigger] pets[i].0 == a,
            |a: Seq<char>| v.accounts[a],
        ),
        animals: Map::new(
            |m: Seq<char>| exists|i: int| 0 <= i < n && #[trigger] pets[i].1 == m,
            |m: Seq<char>| v.animals[m],
        ),
    }
}

proof fn lemma_restore_listed_part(pets: Seq<(Seq<char>, Seq<char>, u32)>, v: FightView, n: int)
    requires
        v.wf(),
        lists_pets_of(pets, v),
        0 <= n <= pets.len(),
    ensures
        FightView::restore(pets.take(n)) == Some(listed_part(pets, v, n)),
    decreases n,
{
    let part = listed_part(pets, v, n);
    if n == 0 {
        assert(pets.take(0) =~= Seq::<(Seq<char>, Seq<char>, u32)>::empty());
        assert(part.accounts =~= Map::empty());
        assert(part.animals =~= Map::empty());
    } else {
        lemma_restore_listed_part(pets, v, n - 1);
        assert(pets.take(n).drop_last() =~= pets.take(n - 1));
        let prev = listed_part(pets, v, n - 1);
        let o = pets[n - 1].0;
        let m = pets[n - 1].1;
        let l = pets[n - 1].2;
        assert(lists_pets_of(pets, v));
        assert(v.accounts.contains_key(pets[n - 1].0));
        assert(v.accounts.contains_key(o) && v.accounts[o] == m && v.animals[m] == l);
        assert(v.animals.contains_key(m));
        assert(l != 0);
        assert(!prev.accounts.contains_key(o)) by {
            if prev.accounts.contains_key(o) {
                let i = choose|i: int| 0 <= i < n - 1 && #[trigger] pets[i].0 == o;
                assert(pets[i].0 != pets[n - 1].0);
            }
        }
        assert(!prev.animals.contains_key(m)) by {
            if prev.animals.contains_key(m) {
                let i = choose|i: int| 0 <= i < n - 1 && #[trigger] pets[i].1 == m;
                assert(v.accounts.contains_key(pets[i].0));
                assert(v.accounts[pets[i].0] == m);
                assert(pets[i].0 != pets[n - 1].0);
            }
        }
        assert(pets.take(n).last() == pets[n - 1]);
        let next = prev.with_pet(o, m, l).unwrap();
        assert(next.accounts =~= part.accounts) by {
            assert forall|a: Seq<char>| #[trigger] next.accounts.contains_key(a) == part.accounts.contains_key(a) by {
                if part.accounts.contains_key(a) && a != o {
                    let i = choose|i: int| 0 <= i < n && #[trigger] pets[i].0 == a;
                    assert(i != n - 1);
                    assert(prev.accounts.contains_key(a));
                }
                if prev.accounts.contains_key(a) {
                    let i = choose|i: int| 0 <= i < n - 1 && #[trigger] pets[i].0 == a;
                    assert(part.accounts.contains_key(a));
                }
                assert(pets[n - 1].0 == o);
            }
        }
        assert(next.animals =~= part.animals) by {
            assert forall|x: Seq<char>| #[trigger] next.animals.contains_key(x) == part.animals.contains_key(x) by {
                if part.animals.contains_key(x) && x != m {
                    let i = choose|i: int| 0 <= i < n && #[trigger] pets[i].1 == x;
                    assert(i != n - 1);
                    assert(prev.animals.contains_key(x));
                }
                if prev.animals.contains_key(x) {
                    let i = choose|i: int| 0 <= i < n - 1 && #[trigger] pets[i].1 == x;
                    assert(part.animals.contains_key(x));
                }
                assert(pets[n - 1].1 == m);
            }
        }
    }
}

/// Saving a game as the list of its pets and restoring it gives back the same
/// game.
pub proof fn law_saved_game_restores(v: FightView, pets: Seq<(Seq<char>, Seq<char>, u32)>)
    requires
        v.wf(),
        lists_pets_of(pets, v),
    ensures
        FightView::restore(pets) == Some(v),
{
    let n = pets.len() as int;
    lemma_restore_listed_part(pets, v, n);
    assert(pets.take(n) =~= pets);
    let part = listed_part(pets, v, n);
    assert(part.accounts =~= v.accounts) by {
        assert forall|a: Seq<char>| #[trigger] part.accounts.contains_key(a) == v.accounts.contains_key(a) by {
            if part.accounts.contains_key(a) {
                let i = choose|i: int| 0 <= i < n && #[trigger] pets[i].0 == a;
                assert(v.accounts.contains_key(pets[i].0));
            }
            if v.accounts.contains_key(a) {
                let i = choose|i: int| 0 <= i < n && #[trigger] pets[i].0 == a;
                assert(part.accounts.contains_key(a));
            }
        }
    }
    assert(part.animals =~= v.animals) by {
        assert forall|x: Seq<char>| #[trigger] part.animals.contains_key(x) == v.animals.contains_key(x) by {
            if part.animals.contains_key(x) {
                let i = choose|i: int| 0 <= i < n && #[trigger] pets[i].1 == x;
                assert(v.accounts.contains_key(pets[i].0));
            }
            if v.animals.contains_key(x) {
                let a = choose|a: Seq<char>| #[trigger] v.accounts.contains_key(a) && v.accounts[a] == x;
                let i = choose|i: int| 0 <= i < n && #[trigger] pets[i].0 == a;
                assert(v.accounts.contains_key(pets[i].0));
                assert(part.animals.contains_key(x));
            }
        }
    }
}

/// A fight compares the stored levels of the two pets: the first pet wins
/// exactly when its level is higher, draws exactly when the levels are equal
/// and loses exactly when its level is lower; if either pet is unknown the
/// answer is "you have no animals".
pub proof fn law_fight_compares_levels(v: FightView, mine: Seq<char>, enemy: Seq<char>)
    ensures
        v.animals.contains_key(mine) && v.animals.contains_key(enemy) ==> {
            &&& (v.fight(mine, enemy) == "you win"@) == (v.animals[mine] > v.animals[enemy])
            &&& (v.fight(mine, enemy) == "equal"@) == (v.animals[mine] == v.animals[enemy])
            &&& (v.fight(mine, enemy) == "you lost"@) == (v.animals[mine] < v.animals[enemy])
        },
        !(v.animals.contains_key(mine) && v.animals.contains_key(enemy))
            ==> v.fight(mine, enemy) == "you have no animals"@,
{
    lemma_replies_distinct();
}

/// Giving up a pet works whatever its level: when `signer` owns a pet, the
/// reply is "success", afterwards the account has no pet and the pet's name
/// is unknown, and every other account and pet is as it was; when `signer`
/// owns none, the reply is "no chongwu" and nothing changes.
pub proof fn law_remove_animal_forgets_owner_and_pet(v: FightView, signer: Seq<char>, a: Seq<char>, n: Seq<char>)
    ensures
        v.accounts.contains_key(signer) ==> {
            let (w, reply) = v.remove_animal(signer);
            let gone = v.accounts[signer];
            &&& reply == "success"@
            &&& !w.accounts.contains_key(signer)
            &&& !w.animals.contains_key(gone)
            &&& w.pet_of(signer) == "NO pets"@
            &&& w.level_of(gone) == 0
            &&& a != signer ==> (w.accounts.contains_key(a) == v.accounts.contains_key(a)
                && w.accounts[a] == v.accounts[a])
            &&& n != gone ==> (w.animals.contains_key(n) == v.animals.contains_key(n)
                && w.animals[n] == v.animals[n])
        },
        !v.accounts.contains_key(signer) ==> v.remove_animal(signer) == (v, "no chongwu"@),
{
}

/// `get_all` answers the name stored for the account, whatever the pet's
/// level, and "NO pets" exactly for an account without one; `get_level`
/// answers the stored level, and 0 exactly for an unknown name.
pub proof fn law_queries_read_the_stored_values(v: FightView, signer: Seq<char>, name: Seq<char>)
    requires
        v.wf(),
    ensures
        v.accounts.contains_key(signer) ==> v.pet_of(signer) == v.accounts[signer],
        !v.accounts.contains_key(signer) ==> v.pet_of(signer) == "NO pets"@,
        v.animals.contains_key(name) ==> v.level_of(name) == v.animals[name] && v.level_of(name) >= 1,
        !v.animals.contains_key(name) ==> v.level_of(name) == 0,
{
}

/// A new game has no accounts with pets and no pets.
pub proof fn law_new_game_is_empty(a: Seq<char>, n: Seq<char>)
    ensures
        !FightView::empty().accounts.contains_key(a),
        !FightView::empty().animals.contains_key(n),
        FightView::empty().pet_of(a) == "NO pets"@,
        FightView::empty().level_of(n) == 0,
{
}

/// `add_first` refuses an account that already has a pet with "already
/// exist", and otherwise a taken name with "exist name"; a successful one adds
/// exactly the account's pet at level 1 and keeps every other account and
/// pet as it was.
pub proof fn law_add_first_adds_only_the_new_pet(
    v: FightView,
    signer: Seq<char>,
    name: Seq<char>,
    a: Seq<char>,
    n: Seq<char>,
)
    ensures
        v.accounts.contains_key(signer) ==> v.add_first(signer, name) == (v, "already exist"@),
        !v.accounts.contains_key(signer) && v.animals.contains_key(name)
            ==> v.add_first(signer, name) == (v, "exist name"@),
        v.add_first_succeeds(signer, name) ==> {
            let (w, reply) = v.add_first(signer, name);
            &&& reply == "success"@
            &&& w.accounts.contains_key(signer) && w.accounts[signer] == name
            &&& w.animals.contains_key(name) && w.animals[name] == 1
            &&& a != signer ==> (w.accounts.contains_key(a) == v.accounts.contains_key(a)
                && w.accounts[a] == v.accounts[a])
            &&& n != name ==> (w.animals.contains_key(n) == v.animals.contains_key(n)
                && w.animals[n] == v.animals[n])
        },
{
}

/// A level-up of a known pet answers "success", whatever its level, and keeps
/// the set of pets as it was.
pub proof fn law_levelup_of_a_known_pet_succeeds(v: FightView, name: Seq<char>, n: Seq<char>)
    requires
        v.animals.contains_key(name),
        v.levelup_fits(name),
    ensures
        v.levelup(name).1 == "success"@,
        v.levelup(name).0.animals.contains_key(n) == v.animals.contains_key(n),
        v.levelup(name).0.animals[name] == v.animals[name] + 1,
{
}

/// The game contract: a map from accounts to their pet's name and a map from
/// pet names to levels.
pub struct AnimalFight {
    accounts: TextMap<String>,
    animals: TextMap<u32>,
}

impl View for AnimalFight {
    type V = FightView;

    closed spec fn view(&self) -> FightView {
        FightView {
            accounts: self.accounts@.map_values(|s: String| s@),
            animals: self.animals@,
        }
    }
}

/// Whether an attached deposit pays for a level-up.
pub fn levelup_deposit_is_enough(attached_deposit: u128) -> (ok: bool)
    ensures
        ok == (attached_deposit >= LEVELUP_MIN_DEPOSIT),
{
    attached_deposit >= LEVELUP_MIN_DEPOSIT
}

impl AnimalFight {
    /// The representation is sound and the game consistent.
    pub closed spec fn wf(&self) -> bool {
        &&& self.accounts.wf()
        &&& self.animals.wf()
        &&& self@.wf()
    }

    /// A well-formed game is consistent, so the laws over `FightView` apply
    /// to it.
    pub proof fn lemma_consistent(&self)
        requires
            self.wf(),
        ensures
            self@.wf(),
    {
    }

    /// A game with no pets.
    pub fn new() -> (game: AnimalFight)
        ensures
            game.wf(),
            game@ == FightView::empty(),
    {
        let game = AnimalFight { accounts: TextMap::new(), animals: TextMap::new() };
        proof {
            assert(game@.accounts =~= Map::empty());
            law_operations_keep_game_consistent(game@, Seq::empty(), Seq::empty());
        }
        game
    }

    /// The pets, as (owner, name, level), in no particular order: the form in
    /// which a game is saved.
    pub fn pets(&self) -> (pets: Vec<(String, String, u32)>)
        requires
            self.wf(),
        ensures
            lists_pets_of(pets@.map_values(|p: (String, String, u32)| (p.0@, p.1@, p.2)), self@),
    {
        let entries = self.accounts.entries();
        proof {
            assert forall|a: int, b: int| 0 <= a < entries@.len() && 0 <= b < entries@.len() && a != b
                implies #[trigger] entries@[a].0@ != #[trigger] entries@[b].0@ by {}
            assert forall|j: int| 0 <= j < entries@.len()
                implies #[trigger] self.accounts@.contains_key(entries@[j].0@)
                    && self.accounts@[entries@[j].0@] == entries@[j].1 by {
                assert(self.accounts@.contains_key(entries@[j].0@));
            }
        }
        let mut pets: Vec<(String, String, u32)> = Vec::new();
        let mut i: usize = 0;
        #[verifier::loop_isolation(false)]
        while i < entries.len()
            invariant
                i <= entries@.len(),
                pets@.len() == i,
                forall|j: int| 0 <= j < i ==> {
                    &&& #[trigger] pets@[j].0@ == entries@[j].0@
                    &&& self@.accounts[pets@[j].0@] == pets@[j].1@
                    &&& self@.animals[pets@[j].1@] == pets@[j].2
                },
            decreases entries@.len() - i,
        {
            let owner = &entries[i].0;
            let name = &entries[i].1;
            proof {
                assert(self.accounts@.contains_key(entries@[i as int].0@));
                assert(self@.accounts.contains_key(owner@));
            }
            let level = match self.animals.get(name) {
                Some(level) => *level,
                None => 0,
            };
            pets.push((owner.clone(), name.clone(), level));
            i = i + 1;
        }
        proof {
            assert(self@.accounts.dom() =~= self.accounts@.dom());
            assert forall|a: Seq<char>| #[trigger] self@.accounts.contains_key(a)
                implies exists|i: int| 0 <= i < pets@.len() && #[trigger] pets@[i].0@ == a by {
                assert(self.accounts@.contains_key(a));
                let j = choose|j: int| 0 <= j < entries@.len() && #[trigger] entries@[j].0@ == a;
                assert(pets@[j].0@ == a);
            }
            let listed = pets@.map_values(|p: (String, String, u32)| (p.0@, p.1@, p.2));
            assert forall|a: Seq<char>| #[trigger] self@.accounts.contains_key(a)
                implies exists|i: int| 0 <= i < listed.len() && #[trigger] listed[i].0 == a by {
                let i = choose|i: int| 0 <= i < pets@.len() && #[trigger] pets@[i].0@ == a;
                assert(listed[i].0 == a);
            }
            assert forall|i: int, j: int| 0 <= i < listed.len() && 0 <= j < listed.len() && i != j
                implies #[trigger] listed[i].0 != #[trigger] listed[j].0 by {
                assert(pets@[i].0@ == entries@[i].0@);
                assert(pets@[j].0@ == entries@[j].0@);
            }
            assert forall|i: int| 0 <= i < listed.len() implies {
                &&& #[trigger] self@.accounts.contains_key(listed[i].0)
                &&& self@.accounts[listed[i].0] == listed[i].1
                &&& self@.animals[listed[i].1] == listed[i].2
            } by {
                assert(pets@[i].0@ == entries@[i].0@);
                assert(self.accounts@.contains_key(entries@[i].0@));
            }
        }
        pets
    }

    /// Rebuilds a saved game from its pets (owner, name, level), added in
    /// order; `None` when a level is 0, an account owns two pets or two pets
    /// share a name.
    pub fn from_pets(pets: &Vec<(AccountId, String, u32)>) -> (game: Option<AnimalFight>)
        ensures
            ({
                let listed = pets@.map_values(|p: (AccountId, String, u32)| (p.0@, p.1@, p.2));
                &&& game is Some <==> FightView::restore(listed) is Some
                &&& game matches Some(g) ==> g.wf() && FightView::restore(listed) == Some(g@)
            }),
    {
        let ghost listed = pets@.map_values(|p: (AccountId, String, u32)| (p.0@, p.1@, p.2));
        let mut game = AnimalFight::new();
        let mut i: usize = 0;
        proof {
            assert(listed.take(0) =~= Seq::empty());
        }
        while i < pets.len()
            invariant
                i <= pets@.len(),
                listed == pets@.map_values(|p: (AccountId, String, u32)| (p.0@, p.1@, p.2)),
                game.wf(),
                FightView::restore(listed.take(i as int)) == Some(game@),
            decreases pets@.len() - i,
        {
            let owner = &pets[i].0;
            let name = &pets[i].1;
            let level = pets[i].2;
            proof {
                assert(listed.take(i + 1).drop_last() =~= listed.take(i as int));
                assert(listed.take(i + 1).last() == (owner@, name@, level));
                lemma_with_pet_keeps_wf(game@, owner@, name@, level);
            }
            if level == 0 || game.accounts.contains_key(owner.text()) || game.animals.contains_key(name) {
                proof {
                    lemma_restore_stays_none(listed, (i + 1) as int);
                }
                return None;
            }
            let ghost pre = game@;
            game.accounts.insert(owner.text().clone(), name.clone());
            game.animals.insert(name.clone(), level);
            proof {
                assert(game@.accounts =~= pre.accounts.insert(owner@, name@));
            }
            i = i + 1;
        }
        proof {
            assert(listed.take(pets@.len() as int) =~= listed);
        }
        Some(game)
    }

    /// Registers `animal_name` as the pet of `signer` at level 1, unless the
    /// account already has a pet ("already exist") or the name is taken
    /// ("exist name"); answers "success" otherwise.
    pub fn add_first(&mut self, signer: &AccountId, animal_name: &String) -> (reply: String)
        requires
            old(self).wf(),
        ensures
            final(self).wf(),
            (final(self)@, reply@) == old(self)@.add_first(signer@, animal_name@),
    {
        proof {
            lemma_add_first_keeps_wf(self@, signer@, animal_name@);
        }
        if self.accounts.contains_key(signer.text()) {
            return "already exist".to_owned();
        }
        if self.animals.contains_key(animal_name) {
            return "exist name".to_owned();
        }
        let ghost pre = self@;
        self.accounts.insert(signer.text().clone(), animal_name.clone());
        self.animals.insert(animal_name.clone(), 1);
        proof {
            assert(self@.accounts =~= pre.accounts.insert(signer@, animal_name@));
        }
        "success".to_owned()
    }

    /// The level of the pet called `animal_name`; 0 when there is none.
    pub fn get_level(&self, animal_name: &String) -> (level: u32)
        requires
            self.wf(),
        ensures
            level == self@.level_of(animal_name@),
    {
        match self.animals.get(animal_name) {
            Some(level) => *level,
            None => 0,
        }
    }

    /// The name of the pet of `signer`, or "NO pets".
    pub fn get_all(&mut self, signer: &AccountId) -> (reply: String)
        requires
            old(self).wf(),
        ensures
            final(self).wf(),
            final(self)@ == old(self)@,
            reply@ == old(self)@.pet_of(signer@),
    {
        match self.accounts.get(signer.text()) {
            Some(name) => name.clone(),
            None => "NO pets".to_owned(),
        }
    }

    /// Gives up the pet of `signer`: the account and the pet are both
    /// forgotten ("success"); "no chongwu" when the account has no pet.
    pub fn remove_animal(&mut self, signer: &AccountId) -> (reply: String)
        requires
            old(self).wf(),
        ensures
            final(self).wf(),
            (final(self)@, reply@) == old(self)@.remove_animal(signer@),
    {
        proof {
            lemma_remove_keeps_wf(self@, signer@);
        }
        let ghost pre = self@;
        match self.accounts.remove(signer.text()) {
            Some(name) => {
                self.animals.remove(&name);
                proof {
                    assert(self@.accounts =~= pre.accounts.remove(signer@));
                }
                "success".to_owned()
            },
            None => {
                proof {
                    assert(self@.accounts =~= pre.accounts);
                }
                "no chongwu".to_owned()
            },
        }
    }

    /// Pits pet `my_animal` against pet `animal_name`: the higher level wins.
    pub fn fight_with(&mut self, my_animal: &String, animal_name: &String) -> (reply: String)
        requires
            old(self).wf(),
        ensures
            final(self).wf(),
            final(self)@ == old(self)@,
            reply@ == old(self)@.fight(my_animal@, animal_name@),
    {
        let my_level = match self.animals.get(my_animal) {
            Some(level) => *level,
            None => return "you have no animals".to_owned(),
        };
        let enemy_level = match self.animals.get(animal_name) {
            Some(level) => *level,
            None => return "you have no animals".to_owned(),
        };
        if my_level > enemy_level {
            return "you win".to_owned();
        }
        if my_level == enemy_level {
            return "equal".to_owned();
        }
        "you lost".to_owned()
    }

    /// Raises the level of the pet called `animal_name` by one ("success");
    /// "no animal" when there is no such pet.
    pub fn levelup(&mut self, animal_name: &String) -> (reply: String)
        requires
            old(self).wf(),
            old(self)@.levelup_fits(animal_name@),
        ensures
            final(self).wf(),
            (final(self)@, reply@) == old(self)@.levelup(animal_name@),
    {
        proof {
            lemma_levelup_keeps_wf(self@, animal_name@);
        }
        let level = match self.animals.get(animal_name) {
            Some(level) => *level,
            None => return "no animal".to_owned(),
        };
        self.animals.insert(animal_name.clone(), level + 1);
        "success".to_owned()
    }
}

} // verus!
