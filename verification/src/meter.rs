//! The human-readable form of the replies to `meter balance`, `meter
//! history` and `meter tiers`.

use vstd::prelude::*;

use crate::json::{Json, compact_json, compact_text, get_str, json_get, str_member};
use crate::request::views;
use crate::text::{
    align_left, align_right, count_value, decimal, decimal_string, group_thousands, grouped,
    pad_left, pad_right, parse_count, same_chars,
};

verus! {

/// The count that a number value writes (a non-negative integer that fits
/// in 64 bits); nothing for any other value.
pub open spec fn count_of(v: Json) -> Option<nat> {
    if v is Number {
        count_value(compact_json(v))
    } else {
        None
    }
}

/// The count member `key` of `v`.
pub open spec fn count_member(v: Json, key: Seq<char>) -> Option<nat> {
    match json_get(v, key) {
        Some(x) => count_of(x),
        None => None,
    }
}

/// One line of the balance: `label` in a field of 11, the count
/// right-aligned in a field of 4, then ` credits`.
pub open spec fn credit_line(label: Seq<char>, n: nat) -> Seq<char> {
    "  "@ + pad_right(label, 11) + pad_left(decimal(n), 4) + " credits"@
}

/// The balance: available credits with the number of operations they pay
/// for (5 credits each), reserved credits (noting the in-progress
/// operations where there are any), and the total.
pub open spec fn balance_text(available: nat, reserved: nat, total: nat) -> Seq<char> {
    "Credit Balance\n"@ + credit_line("Available:"@, available) + " (~"@ + decimal(available / 5)
        + " operations remaining)\n"@ + credit_line("Reserved:"@, reserved) + (if reserved > 0 {
        " (in-progress operations)"@
    } else {
        seq![]
    }) + "\n"@ + credit_line("Total:"@, total) + "\n"@
}

/// The balance text of a reply that holds the three counts.
pub open spec fn balance_view(v: Json) -> Option<Seq<char>> {
    match (
        count_member(v, "available_credits"@),
        count_member(v, "reserved_credits"@),
        count_member(v, "balance_credits"@),
    ) {
        (Some(a), Some(r), Some(t)) => Some(balance_text(a, r, t)),
        _ => None,
    }
}

/// An amount with its sign: `+` before one that has none.
pub open spec fn signed_amount(t: Seq<char>) -> Seq<char> {
    if t.len() > 0 && t[0] == '-' {
        t
    } else {
        "+"@ + t
    }
}

/// A time stamp cut to its first 16 characters (`YYYY-MM-DD HH:MM`), with
/// the `T` between date and time written as a space.
pub open spec fn minute_stamp(s: Seq<char>) -> Seq<char> {
    let k = if s.len() < 16 {
        s.len()
    } else {
        16
    };
    Seq::new(k, |i: int| if s[i] == 'T' { ' ' } else { s[i] })
}

/// The description of an entry; empty where it is null or missing.
pub open spec fn description_text(e: Json) -> Seq<char> {
    match str_member(e, "description"@) {
        Some(d) => d,
        None => seq![],
    }
}

/// One history line: the signed amount right-aligned in 6, the entry type
/// left-aligned in 8, the description left-aligned in 26 and the time
/// stamp; nothing where the entry lacks a number amount or a string type
/// or time.
pub open spec fn entry_line(e: Json) -> Option<Seq<char>> {
    match (json_get(e, "amount_credits"@), str_member(e, "entry_type"@), str_member(e, "created_at"@)) {
        (Some(x), Some(kind), Some(at)) => if x is Number {
            Some(
                "  "@ + pad_left(signed_amount(compact_json(x)), 6) + "  "@ + pad_right(kind, 8)
                    + "  "@ + pad_right(description_text(e), 26) + "  "@ + minute_stamp(at)
                    + "\n"@,
            )
        } else {
            None
        },
        _ => None,
    }
}

/// The lines of the entries, in order; nothing where one has no line.
pub open spec fn entry_lines(es: Seq<Json>) -> Option<Seq<char>>
    decreases es.len(),
{
    if es.len() == 0 {
        Some(seq![])
    } else {
        match (entry_lines(es.drop_last()), entry_line(es.last())) {
            (Some(a), Some(b)) => Some(a + b),
            _ => None,
        }
    }
}

/// The history text of a reply with an `entries` array.
pub open spec fn history_view(v: Json) -> Option<Seq<char>> {
    match json_get(v, "entries"@) {
        Some(Json::Array(es)) => if es@.len() == 0 {
            Some("No billing history yet.\n"@)
        } else {
            match entry_lines(es@) {
                Some(lines) => Some("Credit History (last "@ + decimal(es@.len()) + ")\n"@ + lines),
                None => None,
            }
        },
        _ => None,
    }
}

/// A credit pack: its display name, price in cents and credits.
pub open spec fn tier_record(t: Json) -> Option<(Seq<char>, nat, nat)> {
    match (
        str_member(t, "display_name"@),
        count_member(t, "price_cents"@),
        count_member(t, "credits"@),
    ) {
        (Some(n), Some(p), Some(c)) => Some((n, p, c)),
        _ => None,
    }
}

/// The packs of `ts`, in order; nothing where one is not a pack.
pub open spec fn tier_records(ts: Seq<Json>) -> Option<Seq<(Seq<char>, nat, nat)>>
    decreases ts.len(),
{
    if ts.len() == 0 {
        Some(seq![])
    } else {
        match (tier_records(ts.drop_last()), tier_record(ts.last())) {
            (Some(a), Some(b)) => Some(a.push(b)),
            _ => None,
        }
    }
}

/// The packs of a reply with a `tiers` array.
pub open spec fn tiers_of(v: Json) -> Option<Seq<(Seq<char>, nat, nat)>> {
    match json_get(v, "tiers"@) {
        Some(Json::Array(ts)) => tier_records(ts@),
        _ => None,
    }
}

/// Pack `i` comes before pack `j`: it is cheaper, or as cheap and earlier
/// in the reply.
pub open spec fn comes_before(recs: Seq<(Seq<char>, nat, nat)>, i: int, j: int) -> bool {
    recs[i].1 < recs[j].1 || (recs[i].1 == recs[j].1 && i < j)
}

/// `o` lists the packs by ascending price, equal prices in reply order.
pub open spec fn is_price_order(recs: Seq<(Seq<char>, nat, nat)>, o: Seq<int>) -> bool {
    &&& o.len() == recs.len()
    &&& forall|k: int| 0 <= k < o.len() ==> 0 <= #[trigger] o[k] < recs.len()
    &&& forall|k1: int, k2: int|
        0 <= k1 < k2 < o.len() ==> comes_before(recs, #[trigger] o[k1], #[trigger] o[k2])
}

/// A price order lists every pack exactly once.
pub proof fn lemma_price_order_covers(recs: Seq<(Seq<char>, nat, nat)>, o: Seq<int>)
    requires
        is_price_order(recs, o),
    ensures
        o.no_duplicates(),
        o.to_set() == vstd::set_lib::set_int_range(0, recs.len() as int),
{
    broadcast use vstd::seq_lib::seq_to_set_is_finite;

    assert forall|i: int, j: int| 0 <= i < o.len() && 0 <= j < o.len() && i != j implies o[i]
        != o[j] by {
        if i < j {
            assert(comes_before(recs, o[i], o[j]));
        } else {
            assert(comes_before(recs, o[j], o[i]));
        }
    }
    o.unique_seq_to_set();
    let range = vstd::set_lib::set_int_range(0, recs.len() as int);
    vstd::set_lib::lemma_int_range(0, recs.len() as int);
    assert(o.to_set().subset_of(range));
    vstd::set_lib::lemma_subset_equality(o.to_set(), range);
}

/// Two price orders of the same packs agree on their first `k` places.
pub(crate) proof fn lemma_price_orders_agree(
    recs: Seq<(Seq<char>, nat, nat)>,
    o1: Seq<int>,
    o2: Seq<int>,
    k: int,
)
    requires
        is_price_order(recs, o1),
        is_price_order(recs, o2),
        0 <= k <= o1.len(),
    ensures
        forall|j: int| 0 <= j < k ==> o1[j] == o2[j],
    decreases k,
{
    if k > 0 {
        lemma_price_orders_agree(recs, o1, o2, k - 1);
        lemma_price_order_covers(recs, o1);
        lemma_price_order_covers(recs, o2);
        let m = k - 1;
        if o1[m] != o2[m] {
            assert(o1.to_set().contains(o2[m]));
            assert(o2.to_set().contains(o1[m]));
            let i1 = choose|i: int| 0 <= i < o1.len() && o1[i] == o2[m];
            let i2 = choose|i: int| 0 <= i < o2.len() && o2[i] == o1[m];
            if i1 < m {
                assert(o2[i1] == o1[i1]);
            }
            if i2 < m {
                assert(o1[i2] == o2[i2]);
            }
            assert(i1 > m && i2 > m);
            assert(comes_before(recs, o1[m], o1[i1]));
            assert(comes_before(recs, o2[m], o2[i2]));
        }
    }
}

/// A price in dollars: whole dollars, with the cents after a `.` where
/// there are any (`1900` as `19`, `1950` as `19.50`).
pub open spec fn dollars(cents: nat) -> Seq<char> {
    decimal(cents / 100) + if cents % 100 == 0 {
        seq![]
    } else {
        "."@ + (if cents % 100 < 10 {
            "0"@
        } else {
            seq![]
        }) + decimal(cents % 100)
    }
}

/// One pack line: the name left-aligned in 9, the price right-aligned in
/// 5, the credits with thousands separators right-aligned in 8.
pub open spec fn tier_line(r: (Seq<char>, nat, nat)) -> Seq<char> {
    "  "@ + pad_right(r.0, 9) + pad_left("$"@ + dollars(r.1), 5) + pad_left(
        group_thousands(decimal(r.2)),
        8,
    ) + " credits\n"@
}

/// The lines of the packs in the order `o`.
pub open spec fn tier_lines(recs: Seq<(Seq<char>, nat, nat)>, o: Seq<int>) -> Seq<char>
    decreases o.len(),
{
    if o.len() == 0 {
        seq![]
    } else {
        tier_lines(recs, o.drop_last()) + tier_line(recs[o.last()])
    }
}

/// Whether the meter form applies: the command is `meter balance`, `meter
/// history` or `meter tiers`, and the reply has the fields that the form
/// shows.
pub open spec fn meter_form_applies(command: Seq<char>, args: Seq<Seq<char>>, v: Json) -> bool {
    &&& command == "meter"@
    &&& args.len() > 0
    &&& {
        ||| args[0] == "balance"@ && balance_view(v) is Some
        ||| args[0] == "history"@ && history_view(v) is Some
        ||| args[0] == "tiers"@ && tiers_of(v) is Some
    }
}

/// `t` is `Credit Packs` and the packs of `v` sorted by price.
pub open spec fn tiers_form_holds(v: Json, t: Seq<char>) -> bool {
    match tiers_of(v) {
        Some(recs) => exists|o: Seq<int>|
            #[trigger] is_price_order(recs, o) && t == "Credit Packs\n"@ + tier_lines(recs, o),
        None => false,
    }
}

/// `t` is the meter form of the reply `v` to the meter command with
/// arguments `args`: the balance, the history, or `Credit Packs` and the
/// packs sorted by price.
pub open spec fn is_meter_form(args: Seq<Seq<char>>, v: Json, t: Seq<char>) -> bool {
    ||| args[0] == "balance"@ && balance_view(v) == Some(t)
    ||| args[0] == "history"@ && history_view(v) == Some(t)
    ||| args[0] == "tiers"@ && tiers_form_holds(v, t)
}

fn count_of_value(x: &Json) -> (r: Option<u64>)
    ensures
        match r {
            Some(n) => count_of(*x) == Some(n as nat),
            None => count_of(*x) is None,
        },
{
    match x {
        Json::Number(_) => {
            let text = compact_text(x);
            parse_count(text.as_str())
        },
        _ => None,
    }
}

fn count_member_of(v: &Json, key: &str) -> (r: Option<u64>)
    ensures
        match r {
            Some(n) => count_member(*v, key@) == Some(n as nat),
            None => count_member(*v, key@) is None,
        },
{
    match v.get(key) {
        Some(x) => count_of_value(x),
        None => None,
    }
}

fn credit_line_text(label: &str, n: u64) -> (r: String)
    ensures
        r@ == credit_line(label@, n as nat),
{
    let mut out = String::from_str("  ");
    let l = align_left(label, 11);
    out.append(l.as_str());
    let d = decimal_string(n);
    let num = align_right(d.as_str(), 4);
    out.append(num.as_str());
    out.append(" credits");
    out
}

fn balance_form(v: &Json) -> (r: Option<String>)
    ensures
        match r {
            Some(t) => balance_view(*v) == Some(t@),
            None => balance_view(*v) is None,
        },
{
    let a = match count_member_of(v, "available_credits") {
        Some(a) => a,
        None => return None,
    };
    let r = match count_member_of(v, "reserved_credits") {
        Some(r) => r,
        None => return None,
    };
    let t = match count_member_of(v, "balance_credits") {
        Some(t) => t,
        None => return None,
    };
    let mut out = String::from_str("Credit Balance\n");
    let line = credit_line_text("Available:", a);
    out.append(line.as_str());
    out.append(" (~");
    let ops = decimal_string(a / 5);
    out.append(ops.as_str());
    out.append(" operations remaining)\n");
    let line = credit_line_text("Reserved:", r);
    out.append(line.as_str());
    if r > 0 {
        out.append(" (in-progress operations)");
    }
    out.append("\n");
    let line = credit_line_text("Total:", t);
    out.append(line.as_str());
    out.append("\n");
    proof {
        if r > 0 {
        } else {
            assert(out@ =~= balance_text(a as nat, r as nat, t as nat));
        }
    }
    assert(out@ =~= balance_text(a as nat, r as nat, t as nat));
    Some(out)
}

fn entry_line_text(e: &Json) -> (r: Option<String>)
    ensures
        match r {
            Some(t) => entry_line(*e) == Some(t@),
            None => entry_line(*e) is None,
        },
{
    let x = match e.get("amount_credits") {
        Some(x) => x,
        None => return None,
    };
    let kind = match get_str(e, "entry_type") {
        Some(k) => k,
        None => return None,
    };
    let at = match get_str(e, "created_at") {
        Some(a) => a,
        None => return None,
    };
    match x {
        Json::Number(_) => {},
        _ => return None,
    }
    let amount = compact_text(x);
    let signed = if amount.as_str().unicode_len() > 0 && amount.as_str().get_char(0) == '-' {
        amount
    } else {
        String::from_str("+").concat(amount.as_str())
    };
    let description = match get_str(e, "description") {
        Some(d) => d,
        None => String::new(),
    };
    let mut out = String::from_str("  ");
    let part = align_right(signed.as_str(), 6);
    out.append(part.as_str());
    out.append("  ");
    let part = align_left(kind.as_str(), 8);
    out.append(part.as_str());
    out.append("  ");
    let part = align_left(description.as_str(), 26);
    out.append(part.as_str());
    out.append("  ");
    let stamp = minute_stamp_text(at.as_str());
    out.append(stamp.as_str());
    out.append("\n");
    assert(out@ =~= entry_line(*e)->0);
    Some(out)
}

fn minute_stamp_text(s: &str) -> (r: String)
    ensures
        r@ == minute_stamp(s@),
{
    let n = s.unicode_len();
    let k = if n < 16 {
        n
    } else {
        16
    };
    let mut out = String::new();
    let mut i: usize = 0;
    while i < k
        invariant
            i <= k,
            k <= n,
            n == s@.len(),
            k == (if s@.len() < 16 {
                s@.len()
            } else {
                16
            }),
            out@ =~= minute_stamp(s@).take(i as int),
        decreases k - i,
    {
        if s.get_char(i) == 'T' {
            out.append(" ");
            proof {
                reveal_strlit(" ");
            }
        } else {
            let one = s.substring_char(i, i + 1);
            out.append(one);
        }
        assert(out@ =~= minute_stamp(s@).take(i + 1));
        i = i + 1;
    }
    assert(minute_stamp(s@).take(k as int) =~= minute_stamp(s@));
    out
}

proof fn lemma_entry_lines_fail(es: Seq<Json>, i: int, j: int)
    requires
        0 <= i <= j <= es.len(),
        entry_lines(es.take(i)) is None,
    ensures
        entry_lines(es.take(j)) is None,
    decreases j - i,
{
    if j > i {
        lemma_entry_lines_fail(es, i, j - 1);
        assert(es.take(j).drop_last() =~= es.take(j - 1));
    }
}

fn history_form(v: &Json) -> (r: Option<String>)
    ensures
        match r {
            Some(t) => history_view(*v) == Some(t@),
            None => history_view(*v) is None,
        },
{
    let es = match v.get("entries") {
        Some(Json::Array(es)) => es,
        _ => return None,
    };
    let n = es.len();
    if n == 0 {
        return Some(String::from_str("No billing history yet.\n"));
    }
    let mut lines = String::new();
    let mut i: usize = 0;
    assert(es@.take(0) =~= Seq::<Json>::empty());
    while i < n
        invariant
            i <= n,
            n == es@.len(),
            n > 0,
            json_get(*v, "entries"@) == Some(Json::Array(*es)),
            entry_lines(es@.take(i as int)) == Some(lines@),
        decreases n - i,
    {
        assert(es@.take(i + 1).drop_last() =~= es@.take(i as int));
        assert(es@.take(i + 1).last() == es@[i as int]);
        match entry_line_text(&es[i]) {
            Some(line) => lines.append(line.as_str()),
            None => {
                proof {
                    assert(entry_lines(es@.take(i + 1)) is None);
                    lemma_entry_lines_fail(es@, i + 1, n as int);
                    assert(es@.take(n as int) =~= es@);
                }
                return None;
            },
        }
        i = i + 1;
    }
    assert(es@.take(n as int) =~= es@);
    let mut out = String::from_str("Credit History (last ");
    let count = decimal_string(n as u64);
    out.append(count.as_str());
    out.append(")\n");
    out.append(lines.as_str());
    Some(out)
}

/// The view of a pack read from a reply.
pub open spec fn record_view(r: (String, u64, u64)) -> (Seq<char>, nat, nat) {
    (r.0@, r.1 as nat, r.2 as nat)
}

fn tier_record_of(t: &Json) -> (r: Option<(String, u64, u64)>)
    ensures
        match r {
            Some(x) => tier_record(*t) == Some(record_view(x)),
            None => tier_record(*t) is None,
        },
{
    let name = match get_str(t, "display_name") {
        Some(n) => n,
        None => return None,
    };
    let price = match count_member_of(t, "price_cents") {
        Some(p) => p,
        None => return None,
    };
    let credits = match count_member_of(t, "credits") {
        Some(c) => c,
        None => return None,
    };
    Some((name, price, credits))
}

proof fn lemma_tier_records_fail(ts: Seq<Json>, i: int, j: int)
    requires
        0 <= i <= j <= ts.len(),
        tier_records(ts.take(i)) is None,
    ensures
        tier_records(ts.take(j)) is None,
    decreases j - i,
{
    if j > i {
        lemma_tier_records_fail(ts, i, j - 1);
        assert(ts.take(j).drop_last() =~= ts.take(j - 1));
    }
}

fn tier_records_of(v: &Json) -> (r: Option<Vec<(String, u64, u64)>>)
    ensures
        match r {
            Some(recs) => tiers_of(*v) == Some(recs@.map_values(|x: (String, u64, u64)| record_view(x))),
            None => tiers_of(*v) is None,
        },
{
    let ts = match v.get("tiers") {
        Some(Json::Array(ts)) => ts,
        _ => return None,
    };
    let n = ts.len();
    let mut recs: Vec<(String, u64, u64)> = Vec::new();
    let mut i: usize = 0;
    assert(ts@.take(0) =~= Seq::<Json>::empty());
    while i < n
        invariant
            i <= n,
            n == ts@.len(),
            json_get(*v, "tiers"@) == Some(Json::Array(*ts)),
            tier_records(ts@.take(i as int)) == Some(
                recs@.map_values(|x: (String, u64, u64)| record_view(x)),
            ),
        decreases n - i,
    {
        assert(ts@.take(i + 1).drop_last() =~= ts@.take(i as int));
        assert(ts@.take(i + 1).last() == ts@[i as int]);
        match tier_record_of(&ts[i]) {
            Some(x) => {
                let ghost before = recs@;
                recs.push(x);
                assert(recs@.map_values(|x: (String, u64, u64)| record_view(x)) =~= before.map_values(
                    |x: (String, u64, u64)| record_view(x),
                ).push(record_view(x)));
            },
            None => {
                proof {
                    assert(tier_records(ts@.take(i + 1)) is None);
                    lemma_tier_records_fail(ts@, i + 1, n as int);
                    assert(ts@.take(n as int) =~= ts@);
                }
                return None;
            },
        }
        i = i + 1;
    }
    assert(ts@.take(n as int) =~= ts@);
    Some(recs)
}

/// The positions of `o` as integers.
pub open spec fn positions(o: Seq<usize>) -> Seq<int> {
    o.map_values(|k: usize| k as int)
}

fn price_order(recs: &Vec<(String, u64, u64)>) -> (o: Vec<usize>)
    ensures
        is_price_order(recs@.map_values(|x: (String, u64, u64)| record_view(x)), positions(o@)),
{
    let ghost rv = recs@.map_values(|x: (String, u64, u64)| record_view(x));
    let n = recs.len();
    let mut o: Vec<usize> = Vec::new();
    let mut i: usize = 0;
    while i < n
        invariant
            i <= n,
            n == recs@.len(),
            rv == recs@.map_values(|x: (String, u64, u64)| record_view(x)),
            o@.len() == i,
            forall|k: int| 0 <= k < o@.len() ==> (#[trigger] o@[k]) < i,
            forall|k1: int, k2: int|
                0 <= k1 < k2 < o@.len() ==> comes_before(
                    rv,
                    #[trigger] o@[k1] as int,
                    #[trigger] o@[k2] as int,
                ),
        decreases n - i,
    {
        let p = recs[i].1;
        let mut k: usize = 0;
        while k < o.len() && recs[o[k]].1 <= p
            invariant
                k <= o@.len(),
                o@.len() == i,
                i < n,
                n == recs@.len(),
                p == recs@[i as int].1,
                forall|j: int| 0 <= j < o@.len() ==> (#[trigger] o@[j]) < i,
                forall|j: int| 0 <= j < k ==> recs@[#[trigger] o@[j] as int].1 <= p,
            decreases o@.len() - k,
        {
            k = k + 1;
        }
        let ghost before = o@;
        o.insert(k, i);
        proof {
            assert(o@ == before.insert(k as int, i));
            assert forall|k1: int, k2: int|
                0 <= k1 < k2 < o@.len() implies comes_before(
                rv,
                #[trigger] o@[k1] as int,
                #[trigger] o@[k2] as int,
            ) by {
                if k2 < k {
                    assert(o@[k1] == before[k1] && o@[k2] == before[k2]);
                } else if k2 == k {
                    assert(o@[k1] == before[k1]);
                    assert(recs@[before[k1] as int].1 <= p);
                } else if k1 < k {
                    assert(o@[k1] == before[k1] && o@[k2] == before[k2 - 1]);
                    assert(comes_before(rv, before[k1] as int, before[k2 - 1] as int));
                } else if k1 == k {
                    assert(o@[k2] == before[k2 - 1]);
                    assert(k < before.len());
                    assert(recs@[before[k as int] as int].1 > p);
                    if k2 - 1 > k {
                        assert(comes_before(rv, before[k as int] as int, before[k2 - 1] as int));
                    }
                } else {
                    assert(o@[k1] == before[k1 - 1] && o@[k2] == before[k2 - 1]);
                    assert(comes_before(rv, before[k1 - 1] as int, before[k2 - 1] as int));
                }
            }
            assert forall|j: int| 0 <= j < o@.len() implies (#[trigger] o@[j]) < i + 1 by {
                if j < k {
                    assert(o@[j] == before[j]);
                } else if j > k {
                    assert(o@[j] == before[j - 1]);
                }
            }
        }
        i = i + 1;
    }
    o
}

fn dollars_text(cents: u64) -> (r: String)
    ensures
        r@ == dollars(cents as nat),
{
    let mut out = decimal_string(cents / 100);
    let rest = cents % 100;
    if rest != 0 {
        out.append(".");
        if rest < 10 {
            out.append("0");
        }
        let d = decimal_string(rest);
        out.append(d.as_str());
    }
    out
}

fn tier_line_text(r: &(String, u64, u64)) -> (t: String)
    ensures
        t@ == tier_line(record_view(*r)),
{
    let mut out = String::from_str("  ");
    let part = align_left(r.0.as_str(), 9);
    out.append(part.as_str());
    let price = String::from_str("$").concat(dollars_text(r.1).as_str());
    let part = align_right(price.as_str(), 5);
    out.append(part.as_str());
    let digits = decimal_string(r.2);
    let credits = grouped(digits.as_str());
    let part = align_right(credits.as_str(), 8);
    out.append(part.as_str());
    out.append(" credits\n");
    out
}

fn tiers_form(v: &Json) -> (r: Option<String>)
    ensures
        match r {
            Some(t) => tiers_form_holds(*v, t@),
            None => tiers_of(*v) is None,
        },
{
    let recs = match tier_records_of(v) {
        Some(r) => r,
        None => return None,
    };
    let ghost rv = recs@.map_values(|x: (String, u64, u64)| record_view(x));
    let o = price_order(&recs);
    let mut out = String::from_str("Credit Packs\n");
    let ghost head = out@;
    let n = o.len();
    let mut k: usize = 0;
    assert(positions(o@).take(0) =~= Seq::<int>::empty());
    while k < n
        invariant
            k <= n,
            n == o@.len(),
            rv == recs@.map_values(|x: (String, u64, u64)| record_view(x)),
            is_price_order(rv, positions(o@)),
            out@ == head + tier_lines(rv, positions(o@).take(k as int)),
        decreases n - k,
    {
        assert(positions(o@).take(k + 1).drop_last() =~= positions(o@).take(k as int));
        assert(positions(o@)[k as int] == o@[k as int] as int);
        assert(0 <= positions(o@)[k as int] < rv.len());
        let line = tier_line_text(&recs[o[k]]);
        out.append(line.as_str());
        assert(out@ =~= head + tier_lines(rv, positions(o@).take(k + 1)));
        k = k + 1;
    }
    proof {
        // The price order just built witnesses the form.
        let po = positions(o@);
        assert(po.take(n as int) =~= po);
        let recs = tiers_of(*v)->0;
        assert(recs == rv);
        assert(is_price_order(recs, po));
    }
    Some(out)
}

/// The human-readable form of the reply `v` to `command` with arguments
/// `args`, where the command is `meter balance`, `meter history` or `meter
/// tiers` and the reply has what the form shows; nothing otherwise, where
/// the generic rendering applies.
pub fn meter_human_text(command: &str, args: &Vec<String>, v: &Json) -> (r: Option<String>)
    ensures
        r is Some <==> meter_form_applies(command@, views(args@), *v),
        r matches Some(t) ==> is_meter_form(views(args@), *v, t@),
{
    if !same_chars(command, "meter") || args.len() == 0 {
        return None;
    }
    let sub = args[0].as_str();
    assert(views(args@)[0] == args@[0]@);
    proof {
        // The three words differ, so at most one branch can apply.
        reveal_strlit("balance");
        reveal_strlit("history");
        reveal_strlit("tiers");
        assert("balance"@[0] != "history"@[0]);
    }
    if same_chars(sub, "balance") {
        balance_form(v)
    } else if same_chars(sub, "history") {
        history_form(v)
    } else if same_chars(sub, "tiers") {
        tiers_form(v)
    } else {
        None
    }
}

} // verus!
