//! A recipe, a pantry, and how many cookies the one allows from the other.
//!
//! Recipe and pantry are lists of named amounts in which no name occurs twice.
//! The recipe is gone through in its order: an ingredient of which the pantry
//! holds too little ends the count at zero.

use vstd::prelude::*;

verus! {

/// A named amount as contracts see it.
pub type Entry = (Seq<char>, i64);

/// No name occurs twice in the list.
pub open spec fn distinct_names(entries: Seq<Entry>) -> bool {
    forall|i: int, j: int|
        0 <= i < j < entries.len() ==> (#[trigger] entries[i]).0 != (#[trigger] entries[j]).0
}

/// The amount listed under the name, if the name is listed.
pub open spec fn lookup(entries: Seq<Entry>, name: Seq<char>) -> Option<i64>
    decreases entries.len(),
{
    if entries.len() == 0 {
        None
    } else if entries[0].0 == name {
        Some(entries[0].1)
    } else {
        lookup(entries.drop_first(), name)
    }
}

/// The quotient of two integers, rounded toward zero.
pub open spec fn truncated_quotient(x: int, d: int) -> int {
    if x >= 0 && d > 0 {
        x / d
    } else if x < 0 && d < 0 {
        (-x) / (-d)
    } else if x < 0 {
        -((-x) / d)
    } else {
        -(x / (-d))
    }
}

/// The difference of two amounts, kept within the 64-bit range.
pub open spec fn saturating_difference(x: i64, y: int) -> i64 {
    if x - y > i64::MAX {
        i64::MAX
    } else if x - y < i64::MIN {
        i64::MIN
    } else {
        (x - y) as i64
    }
}

/// The pantry lacks the ingredient, or holds no more of it than one cookie needs.
pub open spec fn is_short(needed: i64, stock: Option<i64>) -> bool {
    needed != 0 && match stock {
        Some(held) => needed >= held,
        None => true,
    }
}

/// The recipe asks for none of an ingredient that the pantry holds: the count
/// would divide by zero.
pub open spec fn divides_by_zero(needed: i64, stock: Option<i64>) -> bool {
    needed == 0 && match stock {
        Some(held) => 0 < held,
        None => false,
    }
}

/// How many cookies the pantry's holding of one ingredient allows, where it holds
/// more than one cookie needs.
pub open spec fn batches(needed: i64, stock: Option<i64>) -> Option<int> {
    match stock {
        Some(held) => if needed < held && needed != 0 {
            Some(truncated_quotient(held as int, needed as int))
        } else {
            None
        },
        None => None,
    }
}

/// The pantry's holding of the recipe's `i`-th ingredient.
pub open spec fn stock_at(recipe: Seq<Entry>, pantry: Seq<Entry>, i: int) -> Option<i64> {
    lookup(pantry, recipe[i].0)
}

/// The recipe's `i`-th ingredient is short.
pub open spec fn short_at(recipe: Seq<Entry>, pantry: Seq<Entry>, i: int) -> bool {
    0 <= i < recipe.len() && is_short(recipe[i].1, stock_at(recipe, pantry, i))
}

/// The recipe's `i`-th ingredient would divide by zero.
pub open spec fn zero_at(recipe: Seq<Entry>, pantry: Seq<Entry>, i: int) -> bool {
    0 <= i < recipe.len() && divides_by_zero(recipe[i].1, stock_at(recipe, pantry, i))
}

/// The recipe's `i`-th ingredient allows `count` cookies.
pub open spec fn batches_at(recipe: Seq<Entry>, pantry: Seq<Entry>, i: int, count: int) -> bool {
    0 <= i < recipe.len() && batches(recipe[i].1, stock_at(recipe, pantry, i)) == Some(count)
}

/// Some ingredient of the recipe is short.
pub open spec fn has_short(recipe: Seq<Entry>, pantry: Seq<Entry>) -> bool {
    exists|i: int| #[trigger] short_at(recipe, pantry, i)
}

/// `count` is the least number of cookies that any single ingredient allows.
pub open spec fn is_least_batches(recipe: Seq<Entry>, pantry: Seq<Entry>, count: int) -> bool {
    &&& exists|i: int| #[trigger] batches_at(recipe, pantry, i, count)
    &&& forall|i: int, other: int| #[trigger] batches_at(recipe, pantry, i, other) ==> count <= other
}

/// The count is defined: going through the recipe in order, no ingredient divides
/// by zero before a short one ends the count, and where none is short, at least
/// one ingredient allows some number of cookies.
pub open spec fn countable(recipe: Seq<Entry>, pantry: Seq<Entry>) -> bool {
    &&& forall|i: int| #[trigger]
        zero_at(recipe, pantry, i) ==> exists|j: int| j < i && #[trigger] short_at(recipe, pantry, j)
    &&& has_short(recipe, pantry) || exists|i: int, count: int| #[trigger]
        batches_at(recipe, pantry, i, count)
}

/// The number of cookies that can be baked: none where an ingredient is short,
/// else the least number that any single ingredient allows.
pub open spec fn is_cookie_count(recipe: Seq<Entry>, pantry: Seq<Entry>, count: int) -> bool {
    if has_short(recipe, pantry) {
        count == 0
    } else {
        is_least_batches(recipe, pantry, count)
    }
}

/// The number of cookies, as a function of recipe and pantry.
pub open spec fn cookie_count(recipe: Seq<Entry>, pantry: Seq<Entry>) -> int {
    choose|count: int| is_cookie_count(recipe, pantry, count)
}

/// At most one number is the cookie count.
pub proof fn lemma_cookie_count_unique(recipe: Seq<Entry>, pantry: Seq<Entry>, count: int)
    requires
        is_cookie_count(recipe, pantry, count),
    ensures
        cookie_count(recipe, pantry) == count,
{
    let other = cookie_count(recipe, pantry);
    assert(is_cookie_count(recipe, pantry, other));
    if !has_short(recipe, pantry) {
        let i = choose|i: int| #[trigger] batches_at(recipe, pantry, i, count);
        let j = choose|j: int| #[trigger] batches_at(recipe, pantry, j, other);
        assert(batches_at(recipe, pantry, i, count));
        assert(batches_at(recipe, pantry, j, other));
    }
}


/// The two lists hold the same entries, in whatever order.
pub open spec fn same_entries(first: Seq<Entry>, second: Seq<Entry>) -> bool {
    &&& forall|i: int| 0 <= i < first.len() ==> second.contains(#[trigger] first[i])
    &&& forall|j: int| 0 <= j < second.len() ==> first.contains(#[trigger] second[j])
}

/// Two lists with the same entries, none named twice, answer every lookup alike.
pub proof fn lemma_same_entries_same_lookup(first: Seq<Entry>, second: Seq<Entry>, name: Seq<char>)
    requires
        distinct_names(first),
        distinct_names(second),
        same_entries(first, second),
    ensures
        lookup(first, name) == lookup(second, name),
{
    match lookup(first, name) {
        Some(amount) => {
            lemma_lookup_finds_the_entry(first, name, amount);
            let i = choose|i: int| 0 <= i < first.len() && #[trigger] first[i] == (name, amount);
            let j = second.index_of(first[i]);
            assert(second[j] == (name, amount));
            lemma_lookup_finds_the_entry(second, name, amount);
        },
        None => {
            match lookup(second, name) {
                Some(amount) => {
                    lemma_lookup_finds_the_entry(second, name, amount);
                    let j = choose|j: int|
                        0 <= j < second.len() && #[trigger] second[j] == (name, amount);
                    let i = first.index_of(second[j]);
                    assert(first[i] == (name, amount));
                    lemma_lookup_finds_the_entry(first, name, amount);
                },
                None => {},
            }
        },
    }
}

/// The number of cookies does not depend on the order of the recipe, nor on how
/// the pantry is laid out, as long as every name finds the same amount in it.
pub proof fn lemma_count_ignores_order(
    recipe: Seq<Entry>,
    pantry: Seq<Entry>,
    other_recipe: Seq<Entry>,
    other_pantry: Seq<Entry>,
    count: int,
)
    requires
        same_entries(recipe, other_recipe),
        forall|name: Seq<char>| lookup(pantry, name) == lookup(other_pantry, name),
    ensures
        is_cookie_count(recipe, pantry, count) <==> is_cookie_count(
            other_recipe,
            other_pantry,
            count,
        ),
{
    if is_cookie_count(recipe, pantry, count) {
        lemma_count_carries_over(recipe, pantry, other_recipe, other_pantry, count);
    }
    if is_cookie_count(other_recipe, other_pantry, count) {
        lemma_count_carries_over(other_recipe, other_pantry, recipe, pantry, count);
    }
}

/// One direction of `lemma_count_ignores_order`.
proof fn lemma_count_carries_over(
    recipe: Seq<Entry>,
    pantry: Seq<Entry>,
    other_recipe: Seq<Entry>,
    other_pantry: Seq<Entry>,
    count: int,
)
    requires
        same_entries(recipe, other_recipe),
        forall|name: Seq<char>| lookup(pantry, name) == lookup(other_pantry, name),
        is_cookie_count(recipe, pantry, count),
    ensures
        is_cookie_count(other_recipe, other_pantry, count),
{
    // Whatever holds of an entry of the one recipe holds of the same entry of the other.
    assert forall|j: int| #[trigger] short_at(other_recipe, other_pantry, j) implies has_short(
        recipe,
        pantry,
    ) by {
        let i = recipe.index_of(other_recipe[j]);
        assert(recipe[i] == other_recipe[j]);
        assert(short_at(recipe, pantry, i));
    }
    assert forall|i: int| #[trigger] short_at(recipe, pantry, i) implies has_short(
        other_recipe,
        other_pantry,
    ) by {
        let j = other_recipe.index_of(recipe[i]);
        assert(other_recipe[j] == recipe[i]);
        assert(short_at(other_recipe, other_pantry, j));
    }
    if !has_short(recipe, pantry) {
        let i = choose|i: int| #[trigger] batches_at(recipe, pantry, i, count);
        let j = other_recipe.index_of(recipe[i]);
        assert(other_recipe[j] == recipe[i]);
        assert(batches_at(other_recipe, other_pantry, j, count));
        assert forall|k: int, other: int| #[trigger]
            batches_at(other_recipe, other_pantry, k, other) implies count <= other by {
            let i = recipe.index_of(other_recipe[k]);
            assert(recipe[i] == other_recipe[k]);
            assert(batches_at(recipe, pantry, i, other));
        }
    }
}

/// The named amounts of a list, each name by its characters.
pub open spec fn entries_of(list: Seq<(String, i64)>) -> Seq<Entry> {
    Seq::new(list.len(), |i: int| (list[i].0@, list[i].1))
}

/// What is left in the pantry after `cookies` cookies: of each ingredient that the
/// recipe lists, the holding less what the cookies took, kept within the 64-bit
/// range; every other holding as it was.
pub open spec fn remaining(recipe: Seq<Entry>, pantry: Seq<Entry>, cookies: int) -> Seq<Entry> {
    Seq::new(
        pantry.len(),
        |i: int|
            (
                pantry[i].0,
                match lookup(recipe, pantry[i].0) {
                    Some(needed) => saturating_difference(pantry[i].1, cookies * needed),
                    None => pantry[i].1,
                },
            ),
    )
}

/// What `cookies` cookies take of every ingredient fits the 64-bit range.
pub open spec fn takings_fit(recipe: Seq<Entry>, pantry: Seq<Entry>, cookies: int) -> bool {
    forall|i: int|
        0 <= i < pantry.len() ==> match lookup(recipe, (#[trigger] pantry[i]).0) {
            Some(needed) => i64::MIN <= cookies * needed <= i64::MAX,
            None => true,
        }
}

/// Baking is defined: the count is, and what the cookies take fits.
pub open spec fn bakeable(recipe: Seq<Entry>, pantry: Seq<Entry>) -> bool {
    countable(recipe, pantry) && takings_fit(recipe, pantry, cookie_count(recipe, pantry))
}

/// Looks a name up in a list of named amounts.
pub fn find_amount(list: &Vec<(String, i64)>, name: &String) -> (amount: Option<i64>)
    ensures
        amount == lookup(entries_of(list@), name@),
{
    let n = list.len();
    let mut i: usize = 0;
    assert(entries_of(list@).skip(0) == entries_of(list@));
    while i < n
        invariant
            n == list.len(),
            i <= n,
            lookup(entries_of(list@), name@) == lookup(entries_of(list@).skip(i as int), name@),
        decreases n - i,
    {
        let ghost rest = entries_of(list@).skip(i as int);
        assert(rest[0] == (list@[i as int].0@, list@[i as int].1));
        assert(rest.drop_first() == entries_of(list@).skip(i + 1));
        if list[i].0 == *name {
            return Some(list[i].1);
        }
        i += 1;
    }
    None
}

/// Under names that are all different, looking a name up finds the one entry
/// that bears it, wherever in the list it stands.
pub proof fn lemma_lookup_finds_the_entry(entries: Seq<Entry>, name: Seq<char>, amount: i64)
    requires
        distinct_names(entries),
    ensures
        lookup(entries, name) == Some(amount) <==> exists|i: int|
            0 <= i < entries.len() && #[trigger] entries[i] == (name, amount),
    decreases entries.len(),
{
    if entries.len() > 0 {
        let rest = entries.drop_first();
        assert forall|i: int, j: int| 0 <= i < j < rest.len() implies (#[trigger] rest[i]).0 != (
        #[trigger] rest[j]).0 by {
            assert(rest[i] == entries[i + 1]);
            assert(rest[j] == entries[j + 1]);
        }
        lemma_lookup_finds_the_entry(rest, name, amount);
        if lookup(entries, name) == Some(amount) {
            if entries[0].0 == name {
                assert(entries[0] == (name, amount));
            } else {
                let i = choose|i: int| 0 <= i < rest.len() && #[trigger] rest[i] == (name, amount);
                assert(entries[i + 1] == (name, amount));
            }
        }
        if exists|i: int| 0 <= i < entries.len() && #[trigger] entries[i] == (name, amount) {
            let i = choose|i: int| 0 <= i < entries.len() && #[trigger] entries[i] == (name, amount);
            if i > 0 {
                assert(rest[i - 1] == (name, amount));
                assert(entries[0].0 != entries[i].0);
            }
        }
    }
}

/// Tells whether no name occurs twice in the list.
pub fn names_differ(list: &Vec<(String, i64)>) -> (ok: bool)
    ensures
        ok == distinct_names(entries_of(list@)),
{
    let n = list.len();
    let ghost entries = entries_of(list@);
    let mut j: usize = 0;
    while j < n
        invariant
            n == list.len(),
            j <= n,
            entries == entries_of(list@),
            forall|a: int, b: int| 0 <= a < b < j ==> (#[trigger] entries[a]).0 != (#[trigger] entries[b]).0,
        decreases n - j,
    {
        let mut i: usize = 0;
        while i < j
            invariant
                n == list.len(),
                i <= j < n,
                entries == entries_of(list@),
                forall|a: int| 0 <= a < i ==> (#[trigger] entries[a]).0 != entries[j as int].0,
            decreases j - i,
        {
            if list[i].0 == list[j].0 {
                assert(entries[i as int].0 == entries[j as int].0);
                return false;
            }
            i += 1;
        }
        j += 1;
    }
    true
}

/// Subtracts, keeping the result within the 64-bit range.
pub fn saturating_sub(x: i64, y: i64) -> (rest: i64)
    ensures
        rest == saturating_difference(x, y as int),
{
    match x.checked_sub(y) {
        Some(rest) => rest,
        None => if y > 0 {
            i64::MIN
        } else {
            i64::MAX
        },
    }
}

/// A recipe and a pantry.
#[derive(Debug)]
pub struct BakeItems {
    pub recipe: Vec<(String, i64)>,
    pub pantry: Vec<(String, i64)>,
}

/// The number of cookies baked and what the pantry holds afterwards.
#[derive(Debug)]
pub struct BakedCookies {
    pub cookies: i64,
    pub pantry: Vec<(String, i64)>,
}

impl BakeItems {
    /// The recipe as contracts see it.
    pub open spec fn recipe_entries(&self) -> Seq<Entry> {
        entries_of(self.recipe@)
    }

    /// The pantry as contracts see it.
    pub open spec fn pantry_entries(&self) -> Seq<Entry> {
        entries_of(self.pantry@)
    }

    /// Neither list names an ingredient twice.
    pub open spec fn wf(&self) -> bool {
        distinct_names(self.recipe_entries()) && distinct_names(self.pantry_entries())
    }

    /// Puts a recipe and a pantry together; there is no answer where either names
    /// an ingredient twice.
    pub fn new(recipe: Vec<(String, i64)>, pantry: Vec<(String, i64)>) -> (items: Option<BakeItems>)
        ensures
            items is Some <==> distinct_names(entries_of(recipe@)) && distinct_names(
                entries_of(pantry@),
            ),
            items matches Some(both) ==> both.recipe == recipe && both.pantry == pantry && both.wf(),
    {
        if names_differ(&recipe) && names_differ(&pantry) {
            Some(BakeItems { recipe, pantry })
        } else {
            None
        }
    }

    /// Tells whether the count is defined for this recipe and pantry.
    pub fn can_count(&self) -> (ok: bool)
        ensures
            ok == countable(self.recipe_entries(), self.pantry_entries()),
    {
        let ghost recipe = self.recipe_entries();
        let ghost pantry = self.pantry_entries();
        let n = self.recipe.len();
        let mut some_batches = false;
        let mut i: usize = 0;
        while i < n
            invariant
                n == self.recipe.len(),
                i <= n,
                recipe == self.recipe_entries(),
                pantry == self.pantry_entries(),
                forall|j: int| 0 <= j < i ==> !#[trigger] short_at(recipe, pantry, j),
                forall|j: int| 0 <= j < i ==> !#[trigger] zero_at(recipe, pantry, j),
                some_batches <==> exists|j: int, count: int|
                    j < i && #[trigger] batches_at(recipe, pantry, j, count),
            decreases n - i,
        {
            let needed = self.recipe[i].1;
            let stock = find_amount(&self.pantry, &self.recipe[i].0);
            assert(recipe[i as int] == (self.recipe@[i as int].0@, needed));
            assert(stock == stock_at(recipe, pantry, i as int));
            let held_more = match stock {
                Some(held) => needed < held,
                None => false,
            };
            if held_more {
                if needed == 0 {
                    assert(zero_at(recipe, pantry, i as int));
                    return false;
                }
                assert(batches_at(
                    recipe,
                    pantry,
                    i as int,
                    truncated_quotient(stock->0 as int, needed as int),
                ));
                some_batches = true;
            } else if needed != 0 {
                assert(short_at(recipe, pantry, i as int));
                return true;
            }
            i += 1;
        }
        some_batches
    }

    /// Counts the cookies that the pantry allows. The recipe is gone through in
    /// order; the first short ingredient ends the count at zero.
    pub fn cookies_available(&self) -> (cookies: i64)
        requires
            countable(self.recipe_entries(), self.pantry_entries()),
        ensures
            is_cookie_count(self.recipe_entries(), self.pantry_entries(), cookies as int),
            cookies == cookie_count(self.recipe_entries(), self.pantry_entries()),
    {
        let ghost recipe = self.recipe_entries();
        let ghost pantry = self.pantry_entries();
        let n = self.recipe.len();
        let mut least: Option<i64> = None;
        let mut i: usize = 0;
        while i < n
            invariant
                n == self.recipe.len(),
                i <= n,
                recipe == self.recipe_entries(),
                pantry == self.pantry_entries(),
                countable(recipe, pantry),
                forall|j: int| 0 <= j < i ==> !#[trigger] short_at(recipe, pantry, j),
                match least {
                    Some(count) => {
                        &&& exists|j: int| j < i && #[trigger] batches_at(recipe, pantry, j, count as int)
                        &&& forall|j: int, other: int|
                            j < i && #[trigger] batches_at(recipe, pantry, j, other) ==> count <= other
                    },
                    None => forall|j: int, other: int|
                        j < i ==> !#[trigger] batches_at(recipe, pantry, j, other),
                },
            decreases n - i,
        {
            let needed = self.recipe[i].1;
            let stock = find_amount(&self.pantry, &self.recipe[i].0);
            assert(recipe[i as int] == (self.recipe@[i as int].0@, needed));
            assert(stock == stock_at(recipe, pantry, i as int));
            let held_more = match stock {
                Some(held) => needed < held,
                None => false,
            };
            if held_more {
                let held = stock.unwrap();
                if needed == 0 {
                    assert(zero_at(recipe, pantry, i as int));
                }
                let count = held.checked_div(needed).unwrap();
                assert(batches_at(recipe, pantry, i as int, count as int));
                least = match least {
                    Some(before) => if count < before {
                        Some(count)
                    } else {
                        Some(before)
                    },
                    None => Some(count),
                };
            } else if needed != 0 {
                assert(short_at(recipe, pantry, i as int));
                proof {
                    lemma_cookie_count_unique(recipe, pantry, 0);
                }
                return 0;
            }
            i += 1;
        }
        assert(!has_short(recipe, pantry));
        let cookies = least.unwrap();
        proof {
            lemma_cookie_count_unique(recipe, pantry, cookies as int);
        }
        cookies
    }

    /// Tells whether baking is defined for this recipe and pantry.
    pub fn can_bake(&self) -> (ok: bool)
        ensures
            ok == bakeable(self.recipe_entries(), self.pantry_entries()),
    {
        if !self.can_count() {
            return false;
        }
        let ghost recipe = self.recipe_entries();
        let ghost pantry = self.pantry_entries();
        let cookies = self.cookies_available();
        let n = self.pantry.len();
        let mut i: usize = 0;
        while i < n
            invariant
                n == self.pantry.len(),
                i <= n,
                recipe == self.recipe_entries(),
                pantry == self.pantry_entries(),
                cookies == cookie_count(recipe, pantry),
                forall|j: int|
                    0 <= j < i ==> match lookup(recipe, (#[trigger] pantry[j]).0) {
                        Some(needed) => i64::MIN <= cookies * needed <= i64::MAX,
                        None => true,
                    },
            decreases n - i,
        {
            assert(pantry[i as int].0 == self.pantry@[i as int].0@);
            match find_amount(&self.recipe, &self.pantry[i].0) {
                Some(needed) => if cookies.checked_mul(needed).is_none() {
                    return false;
                },
                None => {},
            }
            i += 1;
        }
        true
    }

    /// Bakes as many cookies as the pantry allows and hands back what is left:
    /// an empty recipe and the pantry's ingredients, in their order, with their new
    /// amounts.
    pub fn remaining_pantry(&self) -> (rest: BakeItems)
        requires
            bakeable(self.recipe_entries(), self.pantry_entries()),
        ensures
            rest.recipe@.len() == 0,
            rest.pantry_entries() == remaining(
                self.recipe_entries(),
                self.pantry_entries(),
                cookie_count(self.recipe_entries(), self.pantry_entries()),
            ),
            self.wf() ==> rest.wf(),
    {
        let ghost recipe = self.recipe_entries();
        let ghost pantry = self.pantry_entries();
        let cookies = self.cookies_available();
        let mut left: Vec<(String, i64)> = Vec::new();
        let n = self.pantry.len();
        let mut i: usize = 0;
        while i < n
            invariant
                n == self.pantry.len(),
                i <= n,
                recipe == self.recipe_entries(),
                pantry == self.pantry_entries(),
                takings_fit(recipe, pantry, cookies as int),
                left@.len() == i,
                forall|j: int|
                    0 <= j < i ==> (#[trigger] entries_of(left@)[j]) == remaining(
                        recipe,
                        pantry,
                        cookies as int,
                    )[j],
            decreases n - i,
        {
            let name = self.pantry[i].0.clone();
            let held = self.pantry[i].1;
            assert(pantry[i as int] == (name@, held));
            let amount = match find_amount(&self.recipe, &self.pantry[i].0) {
                Some(needed) => saturating_sub(held, cookies * needed),
                None => held,
            };
            let ghost before = left@;
            left.push((name, amount));
            assert(entries_of(left@)[i as int] == (name@, amount));
            assert forall|j: int| 0 <= j < i + 1 implies (#[trigger] entries_of(left@)[j])
                == remaining(recipe, pantry, cookies as int)[j] by {
                if j < i {
                    assert(left@[j] == before[j]);
                    assert(entries_of(left@)[j] == entries_of(before)[j]);
                }
            }
            i += 1;
        }
        let rest = BakeItems { recipe: Vec::new(), pantry: left };
        assert(rest.pantry_entries() =~= remaining(recipe, pantry, cookies as int));
        assert(rest.recipe_entries() =~= Seq::<Entry>::empty());
        rest
    }

    /// Bakes, and reports the number of cookies with what is left in the pantry.
    pub fn bake(&self) -> (baked: BakedCookies)
        requires
            bakeable(self.recipe_entries(), self.pantry_entries()),
        ensures
            baked.cookies == cookie_count(self.recipe_entries(), self.pantry_entries()),
            entries_of(baked.pantry@) == remaining(
                self.recipe_entries(),
                self.pantry_entries(),
                cookie_count(self.recipe_entries(), self.pantry_entries()),
            ),
    {
        let rest = self.remaining_pantry();
        BakedCookies { cookies: self.cookies_available(), pantry: rest.pantry }
    }
}

} // verus!
