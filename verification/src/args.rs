//! The argument objects of the MCP tools that the commands call.
use vstd::prelude::*;
use crate::json::{Json, JVal, jv, entry, entries_view, lemma_obj_view, obj_lookup, lemma_lookup_append};

verus! {

/// An object under construction.
pub struct Args {
    pub entries: Vec<(String, Json)>,
}

/// `(key, value)` as an entry when the value is present, nothing otherwise.
pub open spec fn opt_entry(key: Seq<char>, v: Option<Seq<char>>) -> Seq<(Seq<char>, JVal)> {
    match v {
        Some(s) => seq![(key, JVal::Str(s))],
        None => Seq::empty(),
    }
}

/// The view of an optional string argument.
pub open spec fn opt_view(v: Option<&str>) -> Option<Seq<char>> {
    match v {
        Some(s) => Some(s@),
        None => None,
    }
}

impl Args {
    pub open spec fn spec_entries(&self) -> Seq<(Seq<char>, JVal)> {
        entries_view(self.entries@)
    }

    pub fn new() -> (r: Args)
        ensures
            r.spec_entries() == Seq::<(Seq<char>, JVal)>::empty(),
    {
        let r = Args { entries: Vec::new() };
        assert(r.spec_entries() =~= Seq::<(Seq<char>, JVal)>::empty());
        r
    }

    pub fn put(&mut self, key: &str, v: Json)
        ensures
            final(self).spec_entries() == old(self).spec_entries().push((key@, v@)),
    {
        self.entries.push(entry(key, v));
        assert(final(self).spec_entries() =~= old(self).spec_entries().push((key@, v@)));
    }

    pub fn number(&mut self, key: &str, v: i64)
        ensures
            final(self).spec_entries() == old(self).spec_entries().push((key@, JVal::Int(v as int))),
    {
        self.put(key, Json::Int(v));
    }

    pub fn text(&mut self, key: &str, v: &str)
        ensures
            final(self).spec_entries() == old(self).spec_entries().push((key@, JVal::Str(v@))),
    {
        self.put(key, Json::string(v));
    }

    pub fn opt_text(&mut self, key: &str, v: Option<&str>)
        ensures
            final(self).spec_entries() == old(self).spec_entries() + opt_entry(key@, opt_view(v)),
    {
        match v {
            Some(s) => {
                self.text(key, s);
                assert(final(self).spec_entries() =~= old(self).spec_entries() + opt_entry(key@, opt_view(v)));
            },
            None => {
                assert(old(self).spec_entries() + opt_entry(key@, opt_view(v)) =~= old(self).spec_entries());
            },
        }
    }

    pub fn build(self) -> (r: Json)
        ensures
            r@ == JVal::Obj(self.spec_entries()),
    {
        proof {
            lemma_obj_view(self.entries);
        }
        Json::Object(self.entries)
    }
}

/// `{}`: the arguments of the tools that take none.
pub fn no_args() -> (r: Json)
    ensures
        r@ == JVal::Obj(Seq::empty()),
{
    Args::new().build()
}

/// `query-nearby-stores`: business type, search type, then city and keyword when given.
pub fn nearby_args(be_type: i32, search_type: i32, city: Option<&str>, keyword: Option<&str>) -> (r: Json)
    ensures
        r@ == JVal::Obj(seq![("beType"@, JVal::Int(be_type as int)), ("searchType"@, JVal::Int(search_type as int))]
            + opt_entry("city"@, opt_view(city)) + opt_entry("keyword"@, opt_view(keyword))),
{
    let mut a = Args::new();
    a.number("beType", be_type as i64);
    a.number("searchType", search_type as i64);
    a.opt_text("city", city);
    a.opt_text("keyword", keyword);
    let ghost e = a.spec_entries();
    assert(e =~= seq![("beType"@, JVal::Int(be_type as int)), ("searchType"@, JVal::Int(search_type as int))]
        + opt_entry("city"@, opt_view(city)) + opt_entry("keyword"@, opt_view(keyword)));
    a.build()
}

/// `delivery-query-addresses`: the business type.
pub fn address_list_args(be_type: i32) -> (r: Json)
    ensures
        r@ == JVal::Obj(seq![("beType"@, JVal::Int(be_type as int))]),
{
    let mut a = Args::new();
    a.number("beType", be_type as i64);
    assert(a.spec_entries() =~= seq![("beType"@, JVal::Int(be_type as int))]);
    a.build()
}

/// `delivery-create-address`: the address fields, the business type, then the
/// gender when given.
pub fn address_add_args(
    city: &str,
    contact_name: &str,
    phone: &str,
    address: &str,
    address_detail: &str,
    be_type: i32,
    gender: Option<&str>,
) -> (r: Json)
    ensures
        r@ == JVal::Obj(
            seq![
                ("city"@, JVal::Str(city@)),
                ("contactName"@, JVal::Str(contact_name@)),
                ("phone"@, JVal::Str(phone@)),
                ("address"@, JVal::Str(address@)),
                ("addressDetail"@, JVal::Str(address_detail@)),
                ("beType"@, JVal::Int(be_type as int)),
            ] + opt_entry("gender"@, opt_view(gender)),
        ),
{
    let mut a = Args::new();
    a.text("city", city);
    a.text("contactName", contact_name);
    a.text("phone", phone);
    a.text("address", address);
    a.text("addressDetail", address_detail);
    a.number("beType", be_type as i64);
    a.opt_text("gender", gender);
    let ghost e = a.spec_entries();
    assert(e =~= seq![
        ("city"@, JVal::Str(city@)),
        ("contactName"@, JVal::Str(contact_name@)),
        ("phone"@, JVal::Str(phone@)),
        ("address"@, JVal::Str(address@)),
        ("addressDetail"@, JVal::Str(address_detail@)),
        ("beType"@, JVal::Int(be_type as int)),
    ] + opt_entry("gender"@, opt_view(gender)));
    a.build()
}

/// `delivery-query-stores`: the address and the business type.
pub fn delivery_stores_args(address_id: &str, be_type: i32) -> (r: Json)
    ensures
        r@ == JVal::Obj(seq![("addressId"@, JVal::Str(address_id@)), ("beType"@, JVal::Int(be_type as int))]),
{
    let mut a = Args::new();
    a.text("addressId", address_id);
    a.number("beType", be_type as i64);
    assert(a.spec_entries() =~= seq![("addressId"@, JVal::Str(address_id@)), ("beType"@, JVal::Int(be_type as int))]);
    a.build()
}

/// `query-meal-assistance`: store and business codes, catering business type 6
/// and delivery order type 2, then the reservation time when given.
pub fn catering_args(store: &str, be: &str, reservation_date: Option<&str>) -> (r: Json)
    ensures
        r@ == JVal::Obj(
            seq![
                ("storeCode"@, JVal::Str(store@)),
                ("beCode"@, JVal::Str(be@)),
                ("beType"@, JVal::Int(6)),
                ("orderType"@, JVal::Int(2)),
            ] + opt_entry("reservationDate"@, opt_view(reservation_date)),
        ),
{
    let mut a = Args::new();
    a.text("storeCode", store);
    a.text("beCode", be);
    a.number("beType", 6);
    a.number("orderType", 2);
    a.opt_text("reservationDate", reservation_date);
    let ghost e = a.spec_entries();
    assert(e =~= seq![
        ("storeCode"@, JVal::Str(store@)),
        ("beCode"@, JVal::Str(be@)),
        ("beType"@, JVal::Int(6)),
        ("orderType"@, JVal::Int(2)),
    ] + opt_entry("reservationDate"@, opt_view(reservation_date)));
    a.build()
}

/// `query-meals`: store, order type, business type, then business code and
/// reservation time when given.
pub fn menu_args(store: &str, be: Option<&str>, order_type: i32, be_type: i32, reservation_date: Option<&str>) -> (r: Json)
    ensures
        r@ == JVal::Obj(
            seq![
                ("storeCode"@, JVal::Str(store@)),
                ("orderType"@, JVal::Int(order_type as int)),
                ("beType"@, JVal::Int(be_type as int)),
            ] + opt_entry("beCode"@, opt_view(be)) + opt_entry("reservationDate"@, opt_view(reservation_date)),
        ),
{
    let mut a = Args::new();
    a.text("storeCode", store);
    a.number("orderType", order_type as i64);
    a.number("beType", be_type as i64);
    a.opt_text("beCode", be);
    a.opt_text("reservationDate", reservation_date);
    let ghost e = a.spec_entries();
    assert(e =~= seq![
        ("storeCode"@, JVal::Str(store@)),
        ("orderType"@, JVal::Int(order_type as int)),
        ("beType"@, JVal::Int(be_type as int)),
    ] + opt_entry("beCode"@, opt_view(be)) + opt_entry("reservationDate"@, opt_view(reservation_date)));
    a.build()
}

/// `query-meal-detail`: product code, store, order type, business type, then
/// business code and reservation time when given.
pub fn detail_args(
    code: &str,
    store: &str,
    be: Option<&str>,
    order_type: i32,
    be_type: i32,
    reservation_date: Option<&str>,
) -> (r: Json)
    ensures
        r@ == JVal::Obj(
            seq![
                ("code"@, JVal::Str(code@)),
                ("storeCode"@, JVal::Str(store@)),
                ("orderType"@, JVal::Int(order_type as int)),
                ("beType"@, JVal::Int(be_type as int)),
            ] + opt_entry("beCode"@, opt_view(be)) + opt_entry("reservationDate"@, opt_view(reservation_date)),
        ),
{
    let mut a = Args::new();
    a.text("code", code);
    a.text("storeCode", store);
    a.number("orderType", order_type as i64);
    a.number("beType", be_type as i64);
    a.opt_text("beCode", be);
    a.opt_text("reservationDate", reservation_date);
    let ghost e = a.spec_entries();
    assert(e =~= seq![
        ("code"@, JVal::Str(code@)),
        ("storeCode"@, JVal::Str(store@)),
        ("orderType"@, JVal::Int(order_type as int)),
        ("beType"@, JVal::Int(be_type as int)),
    ] + opt_entry("beCode"@, opt_view(be)) + opt_entry("reservationDate"@, opt_view(reservation_date)));
    a.build()
}

/// `query-store-coupons`: store and business codes, order type, business type,
/// then the reservation time when given.
pub fn coupon_store_args(store: &str, be: &str, order_type: i32, be_type: i32, reservation_date: Option<&str>) -> (r: Json)
    ensures
        r@ == JVal::Obj(
            seq![
                ("storeCode"@, JVal::Str(store@)),
                ("beCode"@, JVal::Str(be@)),
                ("orderType"@, JVal::Int(order_type as int)),
                ("beType"@, JVal::Int(be_type as int)),
            ] + opt_entry("reservationDate"@, opt_view(reservation_date)),
        ),
{
    let mut a = Args::new();
    a.text("storeCode", store);
    a.text("beCode", be);
    a.number("orderType", order_type as i64);
    a.number("beType", be_type as i64);
    a.opt_text("reservationDate", reservation_date);
    let ghost e = a.spec_entries();
    assert(e =~= seq![
        ("storeCode"@, JVal::Str(store@)),
        ("beCode"@, JVal::Str(be@)),
        ("orderType"@, JVal::Int(order_type as int)),
        ("beType"@, JVal::Int(be_type as int)),
    ] + opt_entry("reservationDate"@, opt_view(reservation_date)));
    a.build()
}

/// `mall-points-products`: the category filter when given.
pub fn mall_products_args(cat_rule_ids: Option<&str>) -> (r: Json)
    ensures
        r@ == JVal::Obj(opt_entry("catRuleIds"@, opt_view(cat_rule_ids))),
{
    let mut a = Args::new();
    a.opt_text("catRuleIds", cat_rule_ids);
    assert(a.spec_entries() =~= opt_entry("catRuleIds"@, opt_view(cat_rule_ids)));
    a.build()
}

/// `mall-product-detail`: the product.
pub fn mall_detail_args(spu_id: i64) -> (r: Json)
    ensures
        r@ == JVal::Obj(seq![("spuId"@, JVal::Int(spu_id as int))]),
{
    let mut a = Args::new();
    a.number("spuId", spu_id);
    assert(a.spec_entries() =~= seq![("spuId"@, JVal::Int(spu_id as int))]);
    a.build()
}

/// `mall-create-order`: the item and how many.
pub fn mall_exchange_args(sku_id: i64, count: i32) -> (r: Json)
    ensures
        r@ == JVal::Obj(seq![("skuId"@, JVal::Int(sku_id as int)), ("count"@, JVal::Int(count as int))]),
{
    let mut a = Args::new();
    a.number("skuId", sku_id);
    a.number("count", count as i64);
    assert(a.spec_entries() =~= seq![("skuId"@, JVal::Int(sku_id as int)), ("count"@, JVal::Int(count as int))]);
    a.build()
}

/// `mall-create-physical-order`: the item, how many, the address and the category.
pub fn mall_physical_args(sku_id: i64, count: i32, address_id: &str, spu_category: &str) -> (r: Json)
    ensures
        r@ == JVal::Obj(
            seq![
                ("skuId"@, JVal::Int(sku_id as int)),
                ("count"@, JVal::Int(count as int)),
                ("addressId"@, JVal::Str(address_id@)),
                ("spuCategory"@, JVal::Str(spu_category@)),
            ],
        ),
{
    let mut a = Args::new();
    a.number("skuId", sku_id);
    a.number("count", count as i64);
    a.text("addressId", address_id);
    a.text("spuCategory", spu_category);
    assert(a.spec_entries() =~= seq![
        ("skuId"@, JVal::Int(sku_id as int)),
        ("count"@, JVal::Int(count as int)),
        ("addressId"@, JVal::Str(address_id@)),
        ("spuCategory"@, JVal::Str(spu_category@)),
    ]);
    a.build()
}

/// `mall-order-list`: the last order seen when given, and the page size when positive.
pub fn mall_orders_args(last_id: Option<i64>, size: i32) -> (r: Json)
    ensures
        r@ == JVal::Obj(
            (match last_id { Some(l) => seq![("lastId"@, JVal::Int(l as int))], None => Seq::empty() })
                + (if size > 0 { seq![("size"@, JVal::Int(size as int))] } else { Seq::empty() }),
        ),
{
    let mut a = Args::new();
    match last_id {
        Some(l) => a.number("lastId", l),
        None => {},
    }
    if size > 0 {
        a.number("size", size as i64);
    }
    assert(a.spec_entries() =~= (match last_id { Some(l) => seq![("lastId"@, JVal::Int(l as int))], None => Seq::empty() })
        + (if size > 0 { seq![("size"@, JVal::Int(size as int))] } else { Seq::empty() }));
    a.build()
}

/// An object with the single string member `key` (`mall-order-detail`,
/// `query-order`: `orderId`).
pub fn single_text_args(key: &str, value: &str) -> (r: Json)
    ensures
        r@ == JVal::Obj(seq![(key@, JVal::Str(value@))]),
{
    let mut a = Args::new();
    a.text(key, value);
    assert(a.spec_entries() =~= seq![(key@, JVal::Str(value@))]);
    a.build()
}

/// The arguments of `calculate-price`.
pub open spec fn price_entries(
    store: Seq<char>,
    be: Option<Seq<char>>,
    order_type: int,
    be_type: int,
    reservation_date: Option<Seq<char>>,
    coupon_id: Option<Seq<char>>,
    coupon_code: Option<Seq<char>>,
    items: JVal,
) -> Seq<(Seq<char>, JVal)> {
    seq![
        ("storeCode"@, JVal::Str(store)),
        ("orderType"@, JVal::Int(order_type)),
        ("beType"@, JVal::Int(be_type)),
        ("items"@, items),
    ] + opt_entry("beCode"@, be) + opt_entry("reservationDate"@, reservation_date) + opt_entry("couponId"@, coupon_id)
        + opt_entry("couponCode"@, coupon_code)
}

/// `calculate-price`: store, order type, business type and items, then
/// business code, reservation time, coupon id and coupon code when given.
pub fn price_args(
    store: &str,
    be: Option<&str>,
    order_type: i32,
    be_type: i32,
    reservation_date: Option<&str>,
    coupon_id: Option<&str>,
    coupon_code: Option<&str>,
    items: Json,
) -> (r: Json)
    ensures
        r@ == JVal::Obj(
            price_entries(
                store@,
                opt_view(be),
                order_type as int,
                be_type as int,
                opt_view(reservation_date),
                opt_view(coupon_id),
                opt_view(coupon_code),
                items@,
            ),
        ),
{
    let ghost iv = items@;
    let mut a = Args::new();
    a.text("storeCode", store);
    a.number("orderType", order_type as i64);
    a.number("beType", be_type as i64);
    a.put("items", items);
    a.opt_text("beCode", be);
    a.opt_text("reservationDate", reservation_date);
    a.opt_text("couponId", coupon_id);
    a.opt_text("couponCode", coupon_code);
    let ghost e = a.spec_entries();
    assert(e =~= price_entries(
        store@,
        opt_view(be),
        order_type as int,
        be_type as int,
        opt_view(reservation_date),
        opt_view(coupon_id),
        opt_view(coupon_code),
        iv,
    ));
    a.build()
}

/// The optional arguments of `create-order`.
pub struct OrderOptions<'a> {
    pub be: Option<&'a str>,
    pub address: Option<&'a str>,
    pub take_way: Option<&'a str>,
    pub reservation_date: Option<&'a str>,
    pub coupon_id: Option<&'a str>,
    pub coupon_code: Option<&'a str>,
    pub gm_service_code: Option<&'a str>,
}

/// The arguments of `create-order`.
pub open spec fn order_entries(store: Seq<char>, items: JVal, order_type: int, be_type: int, o: OrderOptions) -> Seq<
    (Seq<char>, JVal),
> {
    seq![
        ("storeCode"@, JVal::Str(store)),
        ("items"@, items),
        ("orderType"@, JVal::Int(order_type)),
        ("beType"@, JVal::Int(be_type)),
    ] + opt_entry("beCode"@, opt_view(o.be)) + opt_entry("addressId"@, opt_view(o.address)) + opt_entry(
        "takeWayCode"@,
        opt_view(o.take_way),
    ) + opt_entry("reservationDate"@, opt_view(o.reservation_date)) + opt_entry("couponId"@, opt_view(o.coupon_id))
        + opt_entry("couponCode"@, opt_view(o.coupon_code)) + opt_entry("gmServiceCode"@, opt_view(o.gm_service_code))
}

/// `create-order`: store, items, order type and business type, then each
/// option that is given.
pub fn order_create_args(store: &str, items: Json, order_type: i32, be_type: i32, o: &OrderOptions) -> (r: Json)
    ensures
        r@ == JVal::Obj(order_entries(store@, items@, order_type as int, be_type as int, *o)),
{
    let ghost iv = items@;
    let mut a = Args::new();
    a.text("storeCode", store);
    a.put("items", items);
    a.number("orderType", order_type as i64);
    a.number("beType", be_type as i64);
    a.opt_text("beCode", o.be);
    a.opt_text("addressId", o.address);
    a.opt_text("takeWayCode", o.take_way);
    a.opt_text("reservationDate", o.reservation_date);
    a.opt_text("couponId", o.coupon_id);
    a.opt_text("couponCode", o.coupon_code);
    a.opt_text("gmServiceCode", o.gm_service_code);
    let ghost e = a.spec_entries();
    assert(e =~= order_entries(store@, iv, order_type as int, be_type as int, *o));
    a.build()
}

/// An optional text as the value that an object holds for it.
pub open spec fn text_member(v: Option<Seq<char>>) -> Option<JVal> {
    match v {
        Some(s) => Some(JVal::Str(s)),
        None => None,
    }
}

proof fn lemma_lookup_opt(k: Seq<char>, v: Option<Seq<char>>, key: Seq<char>)
    ensures
        obj_lookup(opt_entry(k, v), key) == if k == key { text_member(v) } else { None },
{
    assert(obj_lookup(Seq::<(Seq<char>, JVal)>::empty(), key) is None);
    match v {
        Some(s) => {
            let e = opt_entry(k, v);
            assert(e.len() == 1 && e[0] == (k, JVal::Str(s)));
            assert(e.drop_first() =~= Seq::<(Seq<char>, JVal)>::empty());
        },
        None => {},
    }
}

/// The value that the `create-order` arguments hold under `key`.
proof fn lemma_order_lookup(store: Seq<char>, items: JVal, order_type: int, be_type: int, o: OrderOptions, key: Seq<char>)
    ensures
        obj_lookup(order_entries(store, items, order_type, be_type, o), key) == if key == "storeCode"@ {
            Some(JVal::Str(store))
        } else if key == "items"@ {
            Some(items)
        } else if key == "orderType"@ {
            Some(JVal::Int(order_type))
        } else if key == "beType"@ {
            Some(JVal::Int(be_type))
        } else if key == "beCode"@ {
            text_member(opt_view(o.be))
        } else if key == "addressId"@ {
            text_member(opt_view(o.address))
        } else if key == "takeWayCode"@ {
            text_member(opt_view(o.take_way))
        } else if key == "reservationDate"@ {
            text_member(opt_view(o.reservation_date))
        } else if key == "couponId"@ {
            text_member(opt_view(o.coupon_id))
        } else if key == "couponCode"@ {
            text_member(opt_view(o.coupon_code))
        } else if key == "gmServiceCode"@ {
            text_member(opt_view(o.gm_service_code))
        } else {
            None
        },
{
    reveal_strlit("storeCode");
    reveal_strlit("items");
    reveal_strlit("orderType");
    reveal_strlit("beType");
    reveal_strlit("beCode");
    reveal_strlit("addressId");
    reveal_strlit("takeWayCode");
    reveal_strlit("reservationDate");
    reveal_strlit("couponId");
    reveal_strlit("couponCode");
    reveal_strlit("gmServiceCode");
    assert("storeCode"@.len() == 9 && "orderType"@.len() == 9 && "addressId"@.len() == 9);
    assert("storeCode"@[0] == 's' && "orderType"@[0] == 'o' && "addressId"@[0] == 'a');
    assert("beType"@.len() == 6 && "beCode"@.len() == 6);
    assert("beType"@[2] == 'T' && "beCode"@[2] == 'C');
    assert("items"@.len() == 5 && "takeWayCode"@.len() == 11 && "reservationDate"@.len() == 15);
    assert("couponId"@.len() == 8 && "couponCode"@.len() == 10 && "gmServiceCode"@.len() == 13);
    let h = seq![
        ("storeCode"@, JVal::Str(store)),
        ("items"@, items),
        ("orderType"@, JVal::Int(order_type)),
        ("beType"@, JVal::Int(be_type)),
    ];
    let e1 = opt_entry("beCode"@, opt_view(o.be));
    let e2 = opt_entry("addressId"@, opt_view(o.address));
    let e3 = opt_entry("takeWayCode"@, opt_view(o.take_way));
    let e4 = opt_entry("reservationDate"@, opt_view(o.reservation_date));
    let e5 = opt_entry("couponId"@, opt_view(o.coupon_id));
    let e6 = opt_entry("couponCode"@, opt_view(o.coupon_code));
    let e7 = opt_entry("gmServiceCode"@, opt_view(o.gm_service_code));
    lemma_lookup_append(h + e1 + e2 + e3 + e4 + e5 + e6, e7, key);
    lemma_lookup_append(h + e1 + e2 + e3 + e4 + e5, e6, key);
    lemma_lookup_append(h + e1 + e2 + e3 + e4, e5, key);
    lemma_lookup_append(h + e1 + e2 + e3, e4, key);
    lemma_lookup_append(h + e1 + e2, e3, key);
    lemma_lookup_append(h + e1, e2, key);
    lemma_lookup_append(h, e1, key);
    lemma_lookup_opt("beCode"@, opt_view(o.be), key);
    lemma_lookup_opt("addressId"@, opt_view(o.address), key);
    lemma_lookup_opt("takeWayCode"@, opt_view(o.take_way), key);
    lemma_lookup_opt("reservationDate"@, opt_view(o.reservation_date), key);
    lemma_lookup_opt("couponId"@, opt_view(o.coupon_id), key);
    lemma_lookup_opt("couponCode"@, opt_view(o.coupon_code), key);
    lemma_lookup_opt("gmServiceCode"@, opt_view(o.gm_service_code), key);
    let h1 = h.drop_first();
    let h2 = h1.drop_first();
    let h3 = h2.drop_first();
    let h4 = h3.drop_first();
    assert(h4 =~= Seq::<(Seq<char>, JVal)>::empty());
    assert(obj_lookup(h4, key) is None);
    assert(h3[0] == h[3]);
    assert(h2[0] == h[2]);
    assert(h1[0] == h[1]);
    assert(obj_lookup(h3, key) == if key == "beType"@ { Some(JVal::Int(be_type)) } else { None });
    assert(obj_lookup(h2, key) == if key == "orderType"@ { Some(JVal::Int(order_type)) } else { obj_lookup(h3, key) });
    assert(obj_lookup(h1, key) == if key == "items"@ { Some(items) } else { obj_lookup(h2, key) });
    assert(obj_lookup(h, key) == if key == "storeCode"@ { Some(JVal::Str(store)) } else { obj_lookup(h1, key) });
    assert(order_entries(store, items, order_type, be_type, o) == h + e1 + e2 + e3 + e4 + e5 + e6 + e7);
}

/// Law: the `create-order` arguments hold the store, the items, the order
/// type and the business type, and each option under its own name exactly
/// when it is given, with the given text: a given coupon, address, take-way
/// code and so on is always sent, and one not given is never sent.
pub proof fn lemma_order_args_carry_options(
    store: Seq<char>,
    items: JVal,
    order_type: int,
    be_type: int,
    o: OrderOptions,
)
    ensures
        ({
            let v = JVal::Obj(order_entries(store, items, order_type, be_type, o));
            &&& v.get("storeCode"@) == Some(JVal::Str(store))
            &&& v.get("items"@) == Some(items)
            &&& v.get("orderType"@) == Some(JVal::Int(order_type))
            &&& v.get("beType"@) == Some(JVal::Int(be_type))
            &&& v.get("beCode"@) == text_member(opt_view(o.be))
            &&& v.get("addressId"@) == text_member(opt_view(o.address))
            &&& v.get("takeWayCode"@) == text_member(opt_view(o.take_way))
            &&& v.get("reservationDate"@) == text_member(opt_view(o.reservation_date))
            &&& v.get("couponId"@) == text_member(opt_view(o.coupon_id))
            &&& v.get("couponCode"@) == text_member(opt_view(o.coupon_code))
            &&& v.get("gmServiceCode"@) == text_member(opt_view(o.gm_service_code))
        }),
{
    reveal_strlit("storeCode");
    reveal_strlit("items");
    reveal_strlit("orderType");
    reveal_strlit("beType");
    reveal_strlit("beCode");
    reveal_strlit("addressId");
    reveal_strlit("takeWayCode");
    reveal_strlit("reservationDate");
    reveal_strlit("couponId");
    reveal_strlit("couponCode");
    reveal_strlit("gmServiceCode");
    assert("storeCode"@.len() == 9 && "orderType"@.len() == 9 && "addressId"@.len() == 9);
    assert("storeCode"@[0] == 's' && "orderType"@[0] == 'o' && "addressId"@[0] == 'a');
    assert("beType"@.len() == 6 && "beCode"@.len() == 6);
    assert("beType"@[2] == 'T' && "beCode"@[2] == 'C');
    assert("items"@.len() == 5 && "takeWayCode"@.len() == 11 && "reservationDate"@.len() == 15);
    assert("couponId"@.len() == 8 && "couponCode"@.len() == 10 && "gmServiceCode"@.len() == 13);
    lemma_order_lookup(store, items, order_type, be_type, o, "storeCode"@);
    lemma_order_lookup(store, items, order_type, be_type, o, "items"@);
    lemma_order_lookup(store, items, order_type, be_type, o, "orderType"@);
    lemma_order_lookup(store, items, order_type, be_type, o, "beType"@);
    lemma_order_lookup(store, items, order_type, be_type, o, "beCode"@);
    lemma_order_lookup(store, items, order_type, be_type, o, "addressId"@);
    lemma_order_lookup(store, items, order_type, be_type, o, "takeWayCode"@);
    lemma_order_lookup(store, items, order_type, be_type, o, "reservationDate"@);
    lemma_order_lookup(store, items, order_type, be_type, o, "couponId"@);
    lemma_order_lookup(store, items, order_type, be_type, o, "couponCode"@);
    lemma_order_lookup(store, items, order_type, be_type, o, "gmServiceCode"@);
}

proof fn lemma_price_lookup(
    store: Seq<char>,
    be: Option<Seq<char>>,
    order_type: int,
    be_type: int,
    reservation_date: Option<Seq<char>>,
    coupon_id: Option<Seq<char>>,
    coupon_code: Option<Seq<char>>,
    items: JVal,
    key: Seq<char>,
)
    ensures
        obj_lookup(price_entries(store, be, order_type, be_type, reservation_date, coupon_id, coupon_code, items), key)
            == if key == "storeCode"@ {
            Some(JVal::Str(store))
        } else if key == "orderType"@ {
            Some(JVal::Int(order_type))
        } else if key == "beType"@ {
            Some(JVal::Int(be_type))
        } else if key == "items"@ {
            Some(items)
        } else if key == "beCode"@ {
            text_member(be)
        } else if key == "reservationDate"@ {
            text_member(reservation_date)
        } else if key == "couponId"@ {
            text_member(coupon_id)
        } else if key == "couponCode"@ {
            text_member(coupon_code)
        } else {
            None
        },
{
    reveal_strlit("storeCode");
    reveal_strlit("items");
    reveal_strlit("orderType");
    reveal_strlit("beType");
    reveal_strlit("beCode");
    reveal_strlit("reservationDate");
    reveal_strlit("couponId");
    reveal_strlit("couponCode");
    assert("storeCode"@.len() == 9 && "orderType"@.len() == 9);
    assert("storeCode"@[0] == 's' && "orderType"@[0] == 'o');
    assert("beType"@.len() == 6 && "beCode"@.len() == 6);
    assert("beType"@[2] == 'T' && "beCode"@[2] == 'C');
    assert("items"@.len() == 5 && "reservationDate"@.len() == 15);
    assert("couponId"@.len() == 8 && "couponCode"@.len() == 10);
    let h = seq![
        ("storeCode"@, JVal::Str(store)),
        ("orderType"@, JVal::Int(order_type)),
        ("beType"@, JVal::Int(be_type)),
        ("items"@, items),
    ];
    let e1 = opt_entry("beCode"@, be);
    let e2 = opt_entry("reservationDate"@, reservation_date);
    let e3 = opt_entry("couponId"@, coupon_id);
    let e4 = opt_entry("couponCode"@, coupon_code);
    lemma_lookup_append(h + e1 + e2 + e3, e4, key);
    lemma_lookup_append(h + e1 + e2, e3, key);
    lemma_lookup_append(h + e1, e2, key);
    lemma_lookup_append(h, e1, key);
    lemma_lookup_opt("beCode"@, be, key);
    lemma_lookup_opt("reservationDate"@, reservation_date, key);
    lemma_lookup_opt("couponId"@, coupon_id, key);
    lemma_lookup_opt("couponCode"@, coupon_code, key);
    let h1 = h.drop_first();
    let h2 = h1.drop_first();
    let h3 = h2.drop_first();
    let h4 = h3.drop_first();
    assert(h4 =~= Seq::<(Seq<char>, JVal)>::empty());
    assert(obj_lookup(h4, key) is None);
    assert(h3[0] == h[3]);
    assert(h2[0] == h[2]);
    assert(h1[0] == h[1]);
    assert(obj_lookup(h3, key) == if key == "items"@ { Some(items) } else { None });
    assert(obj_lookup(h2, key) == if key == "beType"@ { Some(JVal::Int(be_type)) } else { obj_lookup(h3, key) });
    assert(obj_lookup(h1, key) == if key == "orderType"@ { Some(JVal::Int(order_type)) } else { obj_lookup(h2, key) });
    assert(obj_lookup(h, key) == if key == "storeCode"@ { Some(JVal::Str(store)) } else { obj_lookup(h1, key) });
}

/// Law: the `calculate-price` arguments hold the store, the order type, the
/// business type and the items, and the business code, reservation time,
/// coupon id and coupon code each under its own name exactly when it is
/// given, with the given text.
pub proof fn lemma_price_args_carry_options(
    store: Seq<char>,
    be: Option<Seq<char>>,
    order_type: int,
    be_type: int,
    reservation_date: Option<Seq<char>>,
    coupon_id: Option<Seq<char>>,
    coupon_code: Option<Seq<char>>,
    items: JVal,
)
    ensures
        ({
            let v = JVal::Obj(price_entries(store, be, order_type, be_type, reservation_date, coupon_id, coupon_code, items));
            &&& v.get("storeCode"@) == Some(JVal::Str(store))
            &&& v.get("orderType"@) == Some(JVal::Int(order_type))
            &&& v.get("beType"@) == Some(JVal::Int(be_type))
            &&& v.get("items"@) == Some(items)
            &&& v.get("beCode"@) == text_member(be)
            &&& v.get("reservationDate"@) == text_member(reservation_date)
            &&& v.get("couponId"@) == text_member(coupon_id)
            &&& v.get("couponCode"@) == text_member(coupon_code)
        }),
{
    reveal_strlit("storeCode");
    reveal_strlit("items");
    reveal_strlit("orderType");
    reveal_strlit("beType");
    reveal_strlit("beCode");
    reveal_strlit("reservationDate");
    reveal_strlit("couponId");
    reveal_strlit("couponCode");
    assert("storeCode"@.len() == 9 && "orderType"@.len() == 9);
    assert("storeCode"@[0] == 's' && "orderType"@[0] == 'o');
    assert("beType"@.len() == 6 && "beCode"@.len() == 6);
    assert("beType"@[2] == 'T' && "beCode"@[2] == 'C');
    assert("items"@.len() == 5 && "reservationDate"@.len() == 15);
    assert("couponId"@.len() == 8 && "couponCode"@.len() == 10);
    lemma_price_lookup(store, be, order_type, be_type, reservation_date, coupon_id, coupon_code, items, "storeCode"@);
    lemma_price_lookup(store, be, order_type, be_type, reservation_date, coupon_id, coupon_code, items, "orderType"@);
    lemma_price_lookup(store, be, order_type, be_type, reservation_date, coupon_id, coupon_code, items, "beType"@);
    lemma_price_lookup(store, be, order_type, be_type, reservation_date, coupon_id, coupon_code, items, "items"@);
    lemma_price_lookup(store, be, order_type, be_type, reservation_date, coupon_id, coupon_code, items, "beCode"@);
    lemma_price_lookup(store, be, order_type, be_type, reservation_date, coupon_id, coupon_code, items, "reservationDate"@);
    lemma_price_lookup(store, be, order_type, be_type, reservation_date, coupon_id, coupon_code, items, "couponId"@);
    lemma_price_lookup(store, be, order_type, be_type, reservation_date, coupon_id, coupon_code, items, "couponCode"@);
}

/// The token to use: the command-line one, else the environment's, else the
/// configuration's.
pub fn resolve_token(cli: Option<String>, env: Option<String>, cfg: Option<String>) -> (r: Option<String>)
    ensures
        r == (if cli is Some { cli } else if env is Some { env } else { cfg }),
{
    match cli {
        Some(t) => Some(t),
        None => match env {
            Some(t) => Some(t),
            None => cfg,
        },
    }
}

} // verus!
