//! The product store: an identifier counter in region 0 and a table of
//! encoded products in region 1, with the four operations on them.
use vstd::prelude::*;
use vstd::string::StringExecFns;

use crate::codec::{
    decode_product, encode_product, fits, lemma_payload_fits, lemma_round_trip,
    parse, payload_within_bound, product_of, MAX_SIZE,
};
use crate::record::{Error, PayloadView, Product, ProductPayload, ProductView};
use crate::storage::{
    counter_get, counter_init, counter_set, counter_value, region, regions_init, table_contents,
    table_get, table_init, table_insert, table_is_empty, table_remove, IdCounter,
    RecordTable,
};

verus! {

/// The region that holds the identifier counter.
pub const COUNTER_REGION: u8 = 0;

/// The region that holds the product table.
pub const TABLE_REGION: u8 = 1;

/// The products that the table holds, keyed by identifier: each entry whose
/// bytes are a complete encoding.
pub open spec fn records_of(contents: Map<u64, Seq<u8>>) -> Map<u64, ProductView> {
    Map::new(
        |k: u64| contents.contains_key(k) && parse(contents[k]) is Some,
        |k: u64| parse(contents[k])->0,
    )
}

/// The character of a decimal digit.
pub open spec fn digit_char(d: nat) -> char {
    if d == 0 {
        '0'
    } else if d == 1 {
        '1'
    } else if d == 2 {
        '2'
    } else if d == 3 {
        '3'
    } else if d == 4 {
        '4'
    } else if d == 5 {
        '5'
    } else if d == 6 {
        '6'
    } else if d == 7 {
        '7'
    } else if d == 8 {
        '8'
    } else {
        '9'
    }
}

/// A number in decimal, without leading zeros.
pub open spec fn decimal(n: nat) -> Seq<char>
    decreases n,
{
    if n < 10 {
        seq![digit_char(n)]
    } else {
        decimal(n / 10).push(digit_char(n % 10))
    }
}

/// The message of a lookup of an absent identifier.
pub open spec fn get_missing_message(id: u64) -> Seq<char> {
    "A product with id="@ + decimal(id as nat) + " not found"@
}

/// The message of an update of an absent identifier.
pub open spec fn update_missing_message(id: u64) -> Seq<char> {
    "Couldn't update a product with id="@ + decimal(id as nat) + ". Product not found"@
}

/// The message of a deletion of an absent identifier.
pub open spec fn delete_missing_message(id: u64) -> Seq<char> {
    "Couldn't delete a product with id="@ + decimal(id as nat) + ". Product not found."@
}

/// The product that an update makes of a stored one.
pub open spec fn updated_view(old: ProductView, pl: PayloadView, now: u64) -> ProductView {
    product_of(old.id, pl, old.created_at, Some(now))
}

/// The store of products.
pub struct ProductStore {
    counter: IdCounter,
    table: RecordTable,
}

impl ProductStore {
    /// The products the store holds, by identifier.
    pub closed spec fn records(&self) -> Map<u64, ProductView> {
        records_of(table_contents(&self.table))
    }

    /// The identifier that the next creation issues.
    pub closed spec fn next_id(&self) -> u64 {
        counter_value(&self.counter)
    }

    /// The table holds no entry, decodable or not.
    pub closed spec fn holds_nothing(&self) -> bool {
        table_contents(&self.table) == Map::<u64, Seq<u8>>::empty()
    }

    /// Every entry is a product within the size bound, stored under its own
    /// identifier, which was issued before.
    pub closed spec fn wf(&self) -> bool {
        let contents = table_contents(&self.table);
        forall|k: u64|
            #![trigger contents[k]]
            contents.contains_key(k) ==> {
                &&& contents[k].len() <= MAX_SIZE
                &&& parse(contents[k]) matches Some(v)
                &&& v.id == k
                &&& k < counter_value(&self.counter)
            }
    }

    /// Opens the store over the default stable memory: the counter (starting
    /// at 0 in a memory without one) and the table that the memory holds.
    /// `None` where the counter's region holds a cell of a layout that cannot
    /// be read. Call it once per process and keep the store: each call opens
    /// the same memory anew, and two stores over it would each change what
    /// the other holds.
    pub fn init() -> (r: Option<ProductStore>) {
        let regions = regions_init();
        let counter = match counter_init(region(&regions, COUNTER_REGION), 0) {
            Ok(c) => c,
            Err(_) => return None,
        };
        let table = table_init(region(&regions, TABLE_REGION));
        Some(ProductStore { counter, table })
    }

    /// Whether the table holds no entry at all; a store whose table is empty
    /// is well formed, whatever its counter holds.
    pub fn is_empty(&self) -> (r: bool)
        ensures
            r == self.holds_nothing(),
            r ==> self.wf(),
    {
        table_is_empty(&self.table)
    }

    /// The identifier that the next creation issues.
    pub fn counter(&self) -> (r: u64)
        ensures
            r == self.next_id(),
    {
        counter_get(&self.counter)
    }

    /// Looks a stored product up.
    pub fn _get_product(&self, id: &u64) -> (r: Option<Product>)
        ensures
            match r {
                Some(p) => self.records().contains_key(*id) && p@ == self.records()[*id],
                None => !self.records().contains_key(*id),
            },
    {
        match table_get(&self.table, *id) {
            Some(bytes) => decode_product(bytes.as_slice()),
            None => None,
        }
    }

    /// Stores a product under its identifier, replacing any stored before.
    pub fn do_insert(&mut self, product: &Product)
        requires
            fits(product@),
        ensures
            final(self).next_id() == old(self).next_id(),
            final(self).records() == old(self).records().insert(product.id, product@),
            old(self).wf() && product.id < old(self).next_id() ==> final(self).wf(),
    {
        proof {
            lemma_round_trip(product@);
        }
        let bytes = encode_product(product);
        table_insert(&mut self.table, product.id, bytes);
        assert(self.records() =~= old(self).records().insert(product.id, product@));
    }

    /// The product with the given identifier, or `NotFound`.
    pub fn get_product(&self, id: u64) -> (r: Result<Product, Error>)
        ensures
            match r {
                Ok(p) => self.records().contains_key(id) && p@ == self.records()[id],
                Err(e) => !self.records().contains_key(id) && (e matches Error::NotFound { msg }
                    && msg@ == get_missing_message(id)),
            },
    {
        match self._get_product(&id) {
            Some(p) => Ok(p),
            None => Err(
                Error::NotFound { msg: not_found_message("A product with id=", id, " not found") },
            ),
        }
    }

    /// Creates a product from the payload at time `now`, under the identifier
    /// that the counter holds, and advances the counter by one. `None`, with
    /// nothing changed, exactly where the counter is exhausted.
    pub fn add_product(&mut self, payload: ProductPayload, now: u64) -> (r: Option<Product>)
        requires
            payload_within_bound(payload@),
        ensures
            match r {
                Some(p) => {
                    &&& old(self).next_id() < u64::MAX
                    &&& p@ == product_of(old(self).next_id(), payload@, now, None)
                    &&& final(self).next_id() == old(self).next_id() + 1
                    &&& final(self).records() == old(self).records().insert(p.id, p@)
                },
                None => {
                    &&& final(self).next_id() == old(self).next_id()
                    &&& final(self).records() == old(self).records()
                },
            },
            old(self).next_id() == u64::MAX ==> r is None,
            old(self).next_id() < u64::MAX ==> r is Some,
            old(self).wf() ==> final(self).wf(),
    {
        let current = counter_get(&self.counter);
        if current == u64::MAX {
            return None;
        }
        match counter_set(&mut self.counter, current + 1) {
            Ok(_) => {},
            Err(_) => return None,
        }
        let product = Product {
            id: current,
            name: payload.name,
            description: payload.description,
            price: payload.price,
            cashback_percentage: payload.cashback_percentage,
            created_at: now,
            updated_at: None,
        };
        proof {
            lemma_payload_fits(current, payload@, now, None);
        }
        self.do_insert(&product);
        Some(product)
    }

    /// Replaces the payload's fields of a stored product and sets its update
    /// time to `now`; `NotFound` where no product has the identifier.
    pub fn update_product(&mut self, id: u64, payload: ProductPayload, now: u64) -> (r: Result<
        Product,
        Error,
    >)
        requires
            payload_within_bound(payload@),
        ensures
            final(self).next_id() == old(self).next_id(),
            match r {
                Ok(p) => {
                    &&& old(self).records().contains_key(id)
                    &&& p@ == updated_view(old(self).records()[id], payload@, now)
                    &&& final(self).records() == old(self).records().insert(p.id, p@)
                    &&& old(self).wf() ==> p.id == id
                },
                Err(e) => {
                    &&& !old(self).records().contains_key(id)
                    &&& e matches Error::NotFound { msg } && msg@ == update_missing_message(id)
                    &&& final(self).records() == old(self).records()
                },
            },
            old(self).wf() ==> final(self).wf(),
    {
        match self._get_product(&id) {
            Some(mut product) => {
                product.name = payload.name;
                product.description = payload.description;
                product.price = payload.price;
                product.cashback_percentage = payload.cashback_percentage;
                product.updated_at = Some(now);
                proof {
                    lemma_payload_fits(product.id, payload@, product.created_at, Some(now));
                }
                self.do_insert(&product);
                Ok(product)
            },
            None => Err(
                Error::NotFound {
                    msg: not_found_message(
                        "Couldn't update a product with id=",
                        id,
                        ". Product not found",
                    ),
                },
            ),
        }
    }

    /// Removes a stored product and returns it; `NotFound` where no product
    /// has the identifier.
    pub fn delete_product(&mut self, id: u64) -> (r: Result<Product, Error>)
        ensures
            final(self).next_id() == old(self).next_id(),
            final(self).records() == old(self).records().remove(id),
            match r {
                Ok(p) => old(self).records().contains_key(id) && p@ == old(self).records()[id],
                Err(e) => !old(self).records().contains_key(id) && (e matches Error::NotFound {
                    msg,
                } && msg@ == delete_missing_message(id)),
            },
            old(self).wf() ==> final(self).wf(),
    {
        let removed = table_remove(&mut self.table, id);
        assert(self.records() =~= old(self).records().remove(id));
        let found = match removed {
            Some(bytes) => decode_product(bytes.as_slice()),
            None => None,
        };
        match found {
            Some(p) => Ok(p),
            None => Err(
                Error::NotFound {
                    msg: not_found_message(
                        "Couldn't delete a product with id=",
                        id,
                        ". Product not found.",
                    ),
                },
            ),
        }
    }
}

/// Creations issue strictly increasing identifiers: where each creation
/// issues the counter's value and leaves it one higher (as `add_product`
/// does), and nothing in between lowers the counter (no operation does), every
/// identifier issued is greater than all issued before it.
pub proof fn lemma_ids_increase(
    before: Seq<ProductStore>,
    after: Seq<ProductStore>,
    ids: Seq<u64>,
)
    requires
        before.len() == ids.len(),
        after.len() == ids.len(),
        forall|i: int|
            0 <= i < ids.len() ==> ids[i] == before[i].next_id() && after[i].next_id()
                == before[i].next_id() + 1,
        forall|i: int| 0 <= i < ids.len() - 1 ==> after[i].next_id() <= before[i + 1].next_id(),
    ensures
        forall|i: int, j: int| 0 <= i < j < ids.len() ==> ids[i] < ids[j],
    decreases ids.len(),
{
    if ids.len() > 1 {
        let n = ids.len() - 1;
        lemma_ids_increase(before.drop_last(), after.drop_last(), ids.drop_last());
        assert(ids[n - 1] < ids[n]) by {
            assert(after[n - 1].next_id() <= before[n].next_id());
        }
        assert forall|i: int, j: int| 0 <= i < j < ids.len() implies ids[i] < ids[j] by {
            if j < n {
                assert(ids.drop_last()[i] < ids.drop_last()[j]);
            } else if i < n - 1 {
                assert(ids.drop_last()[i] < ids.drop_last()[n - 1]);
            }
        }
    }
}

/// After a creation returns a product, looking its identifier up finds that
/// product.
pub proof fn lemma_get_after_create(s0: ProductStore, s1: ProductStore, p: ProductView)
    requires
        s1.records() == s0.records().insert(p.id, p),
    ensures
        s1.records().contains_key(p.id),
        s1.records()[p.id] == p,
{
}

/// After an update, the product keeps its identifier and creation time, takes
/// every field of the payload, and has an update time different from any it
/// had, where the clock has moved on since.
pub proof fn lemma_update_keeps_identity(old: ProductView, pl: PayloadView, now: u64)
    requires
        old.updated_at matches Some(t) ==> t < now,
    ensures
        updated_view(old, pl, now).id == old.id,
        updated_view(old, pl, now).created_at == old.created_at,
        updated_view(old, pl, now).name == pl.name,
        updated_view(old, pl, now).description == pl.description,
        updated_view(old, pl, now).price == pl.price,
        updated_view(old, pl, now).cashback_percentage == pl.cashback_percentage,
        updated_view(old, pl, now).updated_at == Some(now),
        updated_view(old, pl, now).updated_at != old.updated_at,
{
}

/// After a deletion, the identifier is absent: looking it up, and deleting it
/// again, give `NotFound`.
pub proof fn lemma_delete_removes(s0: ProductStore, s1: ProductStore, id: u64)
    requires
        s1.records() == s0.records().remove(id),
    ensures
        !s1.records().contains_key(id),
{
}

/// No product is stored under an identifier that was never issued.
pub proof fn lemma_absent_unless_issued(s: ProductStore, id: u64)
    requires
        s.wf(),
        id >= s.next_id(),
    ensures
        !s.records().contains_key(id),
{
    if s.records().contains_key(id) {
        assert(table_contents(&s.table).contains_key(id));
    }
}

/// The one-character text of a decimal digit.
fn digit_text(d: u64) -> (s: &'static str)
    requires
        d < 10,
    ensures
        s@ == seq![digit_char(d as nat)],
{
    proof {
        reveal_strlit("0");
        reveal_strlit("1");
        reveal_strlit("2");
        reveal_strlit("3");
        reveal_strlit("4");
        reveal_strlit("5");
        reveal_strlit("6");
        reveal_strlit("7");
        reveal_strlit("8");
        reveal_strlit("9");
    }
    if d == 0 {
        "0"
    } else if d == 1 {
        "1"
    } else if d == 2 {
        "2"
    } else if d == 3 {
        "3"
    } else if d == 4 {
        "4"
    } else if d == 5 {
        "5"
    } else if d == 6 {
        "6"
    } else if d == 7 {
        "7"
    } else if d == 8 {
        "8"
    } else {
        "9"
    }
}

/// Appends a number in decimal.
fn append_decimal(msg: &mut String, n: u64)
    ensures
        final(msg)@ == old(msg)@ + decimal(n as nat),
    decreases n,
{
    if n >= 10 {
        append_decimal(msg, n / 10);
    }
    msg.append(digit_text(n % 10));
    assert(final(msg)@ =~= old(msg)@ + decimal(n as nat));
}

/// A message of the form prefix, identifier in decimal, suffix.
fn not_found_message(prefix: &str, id: u64, suffix: &str) -> (msg: String)
    ensures
        msg@ == prefix@ + decimal(id as nat) + suffix@,
{
    let mut msg = String::from_str(prefix);
    append_decimal(&mut msg, id);
    msg.append(suffix);
    msg
}

} // verus!
