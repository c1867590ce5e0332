//! The collections that are known by name.
//!
//! The valuation service knows a collection by its slug, the chain by its
//! address. The table that leads from one to the other is fixed: it is built
//! once and read from then on. Each address stands in it once, so that the
//! order of its lines decides nothing.

use vstd::prelude::*;

verus! {

/// One line of the table: the address of a collection, in lowercase
/// hexadecimal with the prefix `0x`, and its slug.
#[derive(Clone, Debug)]
pub struct Collection {
    pub address: String,
    pub slug: String,
}

impl View for Collection {
    type V = (Seq<char>, Seq<char>);

    /// The address and the slug.
    open spec fn view(&self) -> (Seq<char>, Seq<char>) {
        (self.address@, self.slug@)
    }
}

/// The collections that the table holds, in its order.
pub open spec fn known_collections() -> Seq<(Seq<char>, Seq<char>)> {
    seq![
        ("0xbd3531da5cf5857e7cfaa92426877b022e612cf8"@, "pudgypenguins"@),
        ("0xbc4ca0eda7647a8ab7c2061c2e118a18a936f13d"@, "boredapeyachtclub"@),
        ("0xfd1b0b0dfa524e1fd42e7d51155a663c581bbd50"@, "y00ts"@),
        ("0xed5af388653567af2f388e6224dc7c4b3241c544"@, "azuki"@),
        ("0x8821bee2ba0df28761afff119d66390d594cd280"@, "degods"@),
        ("0x49cf6f5d44e70224e2e23fdcdd2c053f30ada28b"@, "clonex"@),
        ("0x60e4d786628fea6478f785a6d7e704777c86a7c6"@, "mutant-ape-yacht-club"@),
        ("0x8a90cab2b38dba80c64b7734e58ee1db38b8992e"@, "doodles-official"@),
        ("0x23581767a106ae21c074b2276d25e5c3e136a68b"@, "proof-moonbirds"@),
    ]
}

/// The slug that `entries` gives for `address`: that of the first line with
/// this address, or `None` where no line has it.
pub open spec fn slug_of(entries: Seq<(Seq<char>, Seq<char>)>, address: Seq<char>) -> Option<
    Seq<char>,
>
    decreases entries.len(),
{
    if entries.len() == 0 {
        None
    } else if entries[0].0 == address {
        Some(entries[0].1)
    } else {
        slug_of(entries.skip(1), address)
    }
}

/// Whether some line of `entries` has `address`.
pub open spec fn is_listed(entries: Seq<(Seq<char>, Seq<char>)>, address: Seq<char>) -> bool {
    exists|i: int| 0 <= i < entries.len() && (#[trigger] entries[i]).0 == address
}

/// An address has a slug exactly where a line of the table has the address.
pub proof fn lemma_slug_of_listed(entries: Seq<(Seq<char>, Seq<char>)>, address: Seq<char>)
    ensures
        slug_of(entries, address) is Some <==> is_listed(entries, address),
    decreases entries.len(),
{
    if entries.len() > 0 {
        if entries[0].0 == address {
            assert(is_listed(entries, address));
        } else {
            let rest = entries.skip(1);
            lemma_slug_of_listed(rest, address);
            if is_listed(rest, address) {
                let i = choose|i: int| 0 <= i < rest.len() && (#[trigger] rest[i]).0 == address;
                assert(entries[i + 1] == rest[i]);
            }
            if is_listed(entries, address) {
                let i = choose|i: int|
                    0 <= i < entries.len() && (#[trigger] entries[i]).0 == address;
                assert(rest[i - 1] == entries[i]);
            }
        }
    }
}

/// Whether no address stands in two lines of `entries`.
pub open spec fn no_address_twice(entries: Seq<(Seq<char>, Seq<char>)>) -> bool {
    forall|i: int, j: int|
        0 <= i < j < entries.len() ==> (#[trigger] entries[i]).0 != (#[trigger] entries[j]).0
}

/// The lines of a list, each as its view.
pub open spec fn lines_view(lines: Seq<Collection>) -> Seq<(Seq<char>, Seq<char>)> {
    Seq::new(lines.len(), |i: int| lines[i]@)
}

/// Where no address stands twice, the slug of an address is that of the one
/// line that holds it, wherever in the table the line stands.
pub proof fn lemma_slug_of_the_line(entries: Seq<(Seq<char>, Seq<char>)>, i: int)
    requires
        no_address_twice(entries),
        0 <= i < entries.len(),
    ensures
        slug_of(entries, entries[i].0) == Some(entries[i].1),
    decreases entries.len(),
{
    if i > 0 {
        let rest = entries.skip(1);
        assert(entries[0].0 != entries[i].0);
        assert forall|a: int, b: int| 0 <= a < b < rest.len() implies (#[trigger] rest[a]).0 != (
        #[trigger] rest[b]).0 by {
            assert(rest[a] == entries[a + 1]);
            assert(rest[b] == entries[b + 1]);
        }
        assert(rest[i - 1] == entries[i]);
        lemma_slug_of_the_line(rest, i - 1);
    }
}

/// No address stands twice among the known collections.
pub proof fn lemma_known_collections_differ()
    ensures
        no_address_twice(known_collections()),
        known_collections().len() == 9,
{
    let table = known_collections();
    reveal_strlit("0xbd3531da5cf5857e7cfaa92426877b022e612cf8");
    reveal_strlit("0xbc4ca0eda7647a8ab7c2061c2e118a18a936f13d");
    reveal_strlit("0xfd1b0b0dfa524e1fd42e7d51155a663c581bbd50");
    reveal_strlit("0xed5af388653567af2f388e6224dc7c4b3241c544");
    reveal_strlit("0x8821bee2ba0df28761afff119d66390d594cd280");
    reveal_strlit("0x49cf6f5d44e70224e2e23fdcdd2c053f30ada28b");
    reveal_strlit("0x60e4d786628fea6478f785a6d7e704777c86a7c6");
    reveal_strlit("0x8a90cab2b38dba80c64b7734e58ee1db38b8992e");
    reveal_strlit("0x23581767a106ae21c074b2276d25e5c3e136a68b");
    assert(table[0].0[2] == 'b' && table[0].0[3] == 'd');
    assert(table[1].0[2] == 'b' && table[1].0[3] == 'c');
    assert(table[2].0[2] == 'f' && table[2].0[3] == 'd');
    assert(table[3].0[2] == 'e' && table[3].0[3] == 'd');
    assert(table[4].0[2] == '8' && table[4].0[3] == '8');
    assert(table[5].0[2] == '4' && table[5].0[3] == '9');
    assert(table[6].0[2] == '6' && table[6].0[3] == '0');
    assert(table[7].0[2] == '8' && table[7].0[3] == 'a');
    assert(table[8].0[2] == '2' && table[8].0[3] == '3');
    assert forall|i: int, j: int| 0 <= i < j < table.len() implies (#[trigger] table[i]).0 != (
    #[trigger] table[j]).0 by {
        assert(table[i].0[2] != table[j].0[2] || table[i].0[3] != table[j].0[3]);
    }
}

/// The table from the address of a collection to its slug. No address
/// stands in it twice.
pub struct CollectionResolver {
    entries: Vec<Collection>,
}

impl View for CollectionResolver {
    type V = Seq<(Seq<char>, Seq<char>)>;

    /// The lines of the table, in order.
    closed spec fn view(&self) -> Seq<(Seq<char>, Seq<char>)> {
        lines_view(self.entries@)
    }
}

/// One line of the table.
fn collection(address: &str, slug: &str) -> (r: Collection)
    ensures
        r@ == (address@, slug@),
{
    Collection { address: address.to_owned(), slug: slug.to_owned() }
}

impl CollectionResolver {
    /// No address stands in two lines.
    #[verifier::type_invariant]
    pub closed spec fn each_address_once(&self) -> bool {
        no_address_twice(lines_view(self.entries@))
    }

    /// The table of the known collections.
    pub fn new() -> (r: CollectionResolver)
        ensures
            r@ == known_collections(),
            no_address_twice(r@),
    {
        let mut entries: Vec<Collection> = Vec::new();
        entries.push(collection("0xbd3531da5cf5857e7cfaa92426877b022e612cf8", "pudgypenguins"));
        entries.push(
            collection("0xbc4ca0eda7647a8ab7c2061c2e118a18a936f13d", "boredapeyachtclub"),
        );
        entries.push(collection("0xfd1b0b0dfa524e1fd42e7d51155a663c581bbd50", "y00ts"));
        entries.push(collection("0xed5af388653567af2f388e6224dc7c4b3241c544", "azuki"));
        entries.push(collection("0x8821bee2ba0df28761afff119d66390d594cd280", "degods"));
        entries.push(collection("0x49cf6f5d44e70224e2e23fdcdd2c053f30ada28b", "clonex"));
        entries.push(
            collection("0x60e4d786628fea6478f785a6d7e704777c86a7c6", "mutant-ape-yacht-club"),
        );
        entries.push(collection("0x8a90cab2b38dba80c64b7734e58ee1db38b8992e", "doodles-official"));
        entries.push(collection("0x23581767a106ae21c074b2276d25e5c3e136a68b", "proof-moonbirds"));
        proof {
            lemma_known_collections_differ();
            assert(lines_view(entries@) =~= known_collections());
        }
        let r = CollectionResolver { entries };
        assert(r@ =~= known_collections());
        r
    }

    /// A table of the given lines, for another set of collections; `None`
    /// where an address stands in two of them.
    pub fn from_entries(entries: Vec<Collection>) -> (r: Option<CollectionResolver>)
        ensures
            r is Some <==> no_address_twice(lines_view(entries@)),
            r matches Some(resolver) ==> resolver@ == lines_view(entries@),
    {
        let n: usize = entries.len();
        let ghost lines = lines_view(entries@);
        let mut j: usize = 0;
        while j < n
            invariant
                j <= n,
                n == entries@.len(),
                lines == lines_view(entries@),
                forall|a: int, b: int|
                    0 <= a < b < j ==> (#[trigger] lines[a]).0 != (#[trigger] lines[b]).0,
            decreases n - j,
        {
            let mut i: usize = 0;
            while i < j
                invariant
                    i <= j < n,
                    n == entries@.len(),
                    lines == lines_view(entries@),
                    forall|a: int| 0 <= a < i ==> (#[trigger] lines[a]).0 != lines[j as int].0,
                decreases j - i,
            {
                if entries[i].address == entries[j].address {
                    assert(lines[i as int].0 == lines[j as int].0);
                    return None;
                }
                i = i + 1;
            }
            j = j + 1;
        }
        Some(CollectionResolver { entries })
    }

    /// How many lines the table has.
    pub fn len(&self) -> (r: usize)
        ensures
            r == self@.len(),
    {
        self.entries.len()
    }

    /// The slug of the collection at `address`, which is written in lowercase
    /// hexadecimal with the prefix `0x`; `None` for an address that the table
    /// does not hold.
    pub fn resolve(&self, address: &str) -> (r: Option<String>)
        ensures
            match r {
                Some(slug) => slug_of(self@, address@) == Some(slug@),
                None => slug_of(self@, address@) is None,
            },
            r is Some <==> is_listed(self@, address@),
            no_address_twice(self@),
    {
        proof {
            use_type_invariant(self);
        }
        let key: String = address.to_owned();
        let n: usize = self.entries.len();
        let mut i: usize = 0;
        proof {
            lemma_slug_of_listed(self@, address@);
            assert(self@.skip(0) =~= self@);
        }
        while i < n
            invariant
                i <= n,
                n == self.entries@.len(),
                key@ == address@,
                no_address_twice(self@),
                slug_of(self@, address@) == slug_of(self@.skip(i as int), address@),
            decreases n - i,
        {
            let ghost rest = self@.skip(i as int);
            assert(rest[0] == self.entries@[i as int]@);
            assert(rest.skip(1) =~= self@.skip(i as int + 1));
            if self.entries[i].address == key {
                return Some(self.entries[i].slug.clone());
            }
            i = i + 1;
        }
        None
    }
}

} // verus!
