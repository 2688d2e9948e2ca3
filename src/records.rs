//! Collection records and the helpers that fill their bookkeeping fields.
use vstd::prelude::*;
use crate::chars::string_of;
use crate::claims::hex_digit;
use crate::users::UtcTime;

verus! {

/// The fields every record carries.
pub struct BaseRecord {
    pub id: String,
    pub created: UtcTime,
    pub updated: UtcTime,
    pub collection_id: String,
    pub collection_name: String,
}

#[verifier::external_type_specification]
#[verifier::external_body]
#[verifier::reject_recursive_types(K)]
#[verifier::reject_recursive_types(V)]
pub struct ExJsonMap<K, V>(serde_json::Map<K, V>);

/// Related records expanded into a listing, by relation name.
pub struct ExpandData {
    pub data: serde_json::Map<String, serde_json::Value>,
}

/// A user account record.
pub struct User {
    pub id: String,
    pub email: String,
    pub email_visibility: bool,
    pub username: String,
    pub name: Option<String>,
    pub avatar: Option<String>,
    pub verified: bool,
    pub created: String,
    pub updated: String,
    pub collection_id: String,
    pub collection_name: String,
}

pub struct Category {
    pub id: String,
    pub name: String,
    pub slug: String,
    pub description: Option<String>,
    pub image: Option<String>,
    pub created: String,
    pub updated: String,
    pub collection_id: String,
    pub collection_name: String,
}

pub struct Subcategory {
    pub id: String,
    pub name: String,
    pub slug: String,
    pub description: Option<String>,
    pub category: String,
    pub created: String,
    pub updated: String,
    pub collection_id: String,
    pub collection_name: String,
}

pub struct Store {
    pub id: String,
    pub name: String,
    pub slug: String,
    pub description: Option<String>,
    pub user: String,
    pub plan: String,
    pub plan_ends_at: Option<String>,
    pub cancel_plan_at_end: bool,
    pub product_limit: i32,
    pub tag_limit: i32,
    pub variant_limit: i32,
    pub active: bool,
    pub created: String,
    pub updated: String,
    pub collection_id: String,
    pub collection_name: String,
}

pub struct Cart {
    pub id: String,
    pub user: Option<String>,
    pub session_id: Option<String>,
    pub created: String,
    pub updated: String,
    pub collection_id: String,
    pub collection_name: String,
}

pub struct CartItem {
    pub id: String,
    pub cart: String,
    pub product: String,
    pub quantity: i32,
    pub subcategory: Option<String>,
    pub created: String,
    pub updated: String,
    pub collection_id: String,
    pub collection_name: String,
}

pub struct Address {
    pub id: String,
    pub line1: String,
    pub line2: Option<String>,
    pub city: String,
    pub state: String,
    pub postal_code: String,
    pub country: String,
    pub user: String,
    pub created: String,
    pub updated: String,
    pub collection_id: String,
    pub collection_name: String,
}

pub struct Order {
    pub id: String,
    pub user: Option<String>,
    pub store: String,
    pub items: String,
    pub quantity: Option<i32>,
    pub amount: String,
    pub status: String,
    pub name: String,
    pub email: String,
    pub address: String,
    pub notes: Option<String>,
    pub created: String,
    pub updated: String,
    pub collection_id: String,
    pub collection_name: String,
}

pub struct Customer {
    pub id: String,
    pub name: Option<String>,
    pub email: String,
    pub store: String,
    pub total_orders: i32,
    pub total_spent: String,
    pub created: String,
    pub updated: String,
    pub collection_id: String,
    pub collection_name: String,
}

pub struct Notification {
    pub id: String,
    pub email: String,
    pub token: String,
    pub user: Option<String>,
    pub communication: bool,
    pub newsletter: bool,
    pub marketing: bool,
    pub created: String,
    pub updated: String,
    pub collection_id: String,
    pub collection_name: String,
}

/// One page of a collection listing.
pub struct PBListResponse<T> {
    pub page: i32,
    pub per_page: i32,
    pub total_items: i32,
    pub total_pages: i32,
    pub items: Vec<T>,
}

/// A token together with the record it authenticates.
pub struct PBAuthResponse<T> {
    pub token: String,
    pub record: T,
}

/// Lower-case hexadecimal digits of `n`, most significant first.
pub open spec fn hex_text(n: nat) -> Seq<char>
    decreases n,
{
    if n < 16 {
        seq![hex_digit(n as int)]
    } else {
        hex_text(n / 16).push(hex_digit((n % 16) as int))
    }
}

/// A record identifier made from a nanosecond count: its first 15 hexadecimal digits.
pub open spec fn id_text(nanos: nat) -> Seq<char> {
    let h = hex_text(nanos);
    if h.len() > 15 {
        h.take(15)
    } else {
        h
    }
}

fn hex_char_of(d: u128) -> (r: char)
    requires
        d < 16,
    ensures
        r == hex_digit(d as int),
{
    if d < 10 {
        ((d as u8) + 48) as char
    } else {
        ((d as u8) + 87) as char
    }
}

fn push_hex(out: &mut Vec<char>, n: u128)
    ensures
        final(out)@ == old(out)@ + hex_text(n as nat),
    decreases n,
{
    if n < 16 {
        out.push(hex_char_of(n));
    } else {
        push_hex(out, n / 16);
        out.push(hex_char_of(n % 16));
    }
    assert(out@ =~= old(out)@ + hex_text(n as nat));
}

/// The identifier for a nanosecond count.
pub fn id_from_nanos(nanos: u128) -> (r: String)
    ensures
        r@ == id_text(nanos as nat),
{
    let mut digits: Vec<char> = Vec::new();
    push_hex(&mut digits, nanos);
    assert(digits@ =~= hex_text(nanos as nat));
    let n: usize = if digits.len() > 15 {
        15
    } else {
        digits.len()
    };
    let mut out: Vec<char> = Vec::new();
    let mut i: usize = 0;
    while i < n
        invariant
            i <= n <= digits.len(),
            out@ == digits@.take(i as int),
        decreases n - i,
    {
        out.push(digits[i]);
        i = i + 1;
        assert(out@ =~= digits@.take(i as int));
    }
    assert(out@ =~= id_text(nanos as nat));
    string_of(&out)
}

/// Relies on `std::time::SystemTime::now().duration_since(UNIX_EPOCH)`: nanoseconds since
/// the Unix epoch (it panics on a clock set before the epoch).
#[verifier::external_body]
fn nanos_since_epoch() -> (r: u128) {
    std::time::SystemTime::now().duration_since(std::time::UNIX_EPOCH).unwrap().as_nanos()
}

/// A fresh record identifier taken from the clock.
pub fn generate_id() -> (r: String)
    ensures
        exists|n: nat| r@ == id_text(n),
{
    let n = nanos_since_epoch();
    let r = id_from_nanos(n);
    assert(r@ == id_text(n as nat));
    r
}

/// Relies on `chrono::Utc::now()` formatted as `%Y-%m-%d %H:%M:%S%.3fZ`: the current time.
#[verifier::external_body]
pub fn current_timestamp() -> (r: String) {
    chrono::Utc::now().format("%Y-%m-%d %H:%M:%S%.3fZ").to_string()
}

/// Identifier and timestamps of a record made now, in collection `coll`.
pub open spec fn fresh_record(id: Seq<char>, created: Seq<char>, updated: Seq<char>, cid: Seq<char>, cname: Seq<char>, coll: Seq<char>) -> bool {
    &&& exists|n: nat| id == id_text(n)
    &&& created == updated
    &&& cid == coll
    &&& cname == coll
}

impl User {
    pub fn new(email: String, username: String, name: Option<String>) -> (r: User)
        ensures
            r.email == email && r.username == username && r.name == name,
            !r.email_visibility && !r.verified && r.avatar is None,
            fresh_record(r.id@, r.created@, r.updated@, r.collection_id@, r.collection_name@, "users"@),
    {
        let now = current_timestamp();
        User {
            id: generate_id(),
            email,
            email_visibility: false,
            username,
            name,
            avatar: None,
            verified: false,
            created: now.clone(),
            updated: now,
            collection_id: "users".to_owned(),
            collection_name: "users".to_owned(),
        }
    }
}

impl Category {
    pub fn new(name: String, slug: String, description: Option<String>, image: Option<String>) -> (r: Category)
        ensures
            r.name == name && r.slug == slug && r.description == description && r.image == image,
            fresh_record(r.id@, r.created@, r.updated@, r.collection_id@, r.collection_name@, "categories"@),
    {
        let now = current_timestamp();
        Category {
            id: generate_id(),
            name,
            slug,
            description,
            image,
            created: now.clone(),
            updated: now,
            collection_id: "categories".to_owned(),
            collection_name: "categories".to_owned(),
        }
    }
}

impl Store {
    /// A new store on the free plan: 10 products, 5 tags, 5 variants, active.
    pub fn new(name: String, slug: String, user: String) -> (r: Store)
        ensures
            r.name == name && r.slug == slug && r.user == user,
            r.description is None && r.plan_ends_at is None && !r.cancel_plan_at_end,
            r.plan@ == "free"@,
            r.product_limit == 10 && r.tag_limit == 5 && r.variant_limit == 5 && r.active,
            fresh_record(r.id@, r.created@, r.updated@, r.collection_id@, r.collection_name@, "stores"@),
    {
        let now = current_timestamp();
        Store {
            id: generate_id(),
            name,
            slug,
            description: None,
            user,
            plan: "free".to_owned(),
            plan_ends_at: None,
            cancel_plan_at_end: false,
            product_limit: 10,
            tag_limit: 5,
            variant_limit: 5,
            active: true,
            created: now.clone(),
            updated: now,
            collection_id: "stores".to_owned(),
            collection_name: "stores".to_owned(),
        }
    }
}

impl Cart {
    pub fn new(user: Option<String>, session_id: Option<String>) -> (r: Cart)
        ensures
            r.user == user && r.session_id == session_id,
            fresh_record(r.id@, r.created@, r.updated@, r.collection_id@, r.collection_name@, "carts"@),
    {
        let now = current_timestamp();
        Cart {
            id: generate_id(),
            user,
            session_id,
            created: now.clone(),
            updated: now,
            collection_id: "carts".to_owned(),
            collection_name: "carts".to_owned(),
        }
    }
}

impl Address {
    pub fn new(
        line1: String,
        city: String,
        state: String,
        postal_code: String,
        country: String,
        user: String,
    ) -> (r: Address)
        ensures
            r.line1 == line1 && r.line2 is None && r.city == city && r.state == state,
            r.postal_code == postal_code && r.country == country && r.user == user,
            fresh_record(r.id@, r.created@, r.updated@, r.collection_id@, r.collection_name@, "addresses"@),
    {
        let now = current_timestamp();
        Address {
            id: generate_id(),
            line1,
            line2: None,
            city,
            state,
            postal_code,
            country,
            user,
            created: now.clone(),
            updated: now,
            collection_id: "addresses".to_owned(),
            collection_name: "addresses".to_owned(),
        }
    }
}

} // verus!
