//! The crate's laws: properties that relate several operations, stated and
//! proved over the same models the operations' own contracts use.

use vstd::prelude::*;
use vstd::string::StringSliceAdditionalSpecFns;
use crate::clock::Timestamp;
use crate::fs_model::FileView;
use crate::store::{active_content, backup_path_model, flake_path, legacy_path, saved_file_view,
    stage_path_model, user_path};
use crate::text::{all_digits, dec_digits, dec_value, is_dec_digit, lex_le};
use crate::validation::{errors_model, has_state_version, is_valid_model,
    missing_state_version_msg};

verus! {

/// Powers of ten.
spec fn pow10(k: nat) -> nat
    decreases k,
{
    if k == 0 {
        1
    } else {
        10 * pow10((k - 1) as nat)
    }
}

proof fn lemma_dec_digits_are_digits(n: nat)
    ensures
        all_digits(dec_digits(n)),
    decreases n,
{
    if n < 10 {
    } else {
        lemma_dec_digits_are_digits(n / 10);
        assert(dec_digits(n).last() == (48 + n % 10) as u8);
        assert(forall|i: int|
            0 <= i < dec_digits(n / 10).len() ==> dec_digits(n)[i] == dec_digits(n / 10)[i]);
    }
}

proof fn lemma_dec_value_of_digits(n: nat)
    ensures
        dec_value(dec_digits(n)) == n,
    decreases n,
{
    if n < 10 {
        assert(dec_value(Seq::<u8>::empty()) == 0);
        assert(dec_digits(n).drop_last() =~= Seq::<u8>::empty());
        assert(dec_digits(n).last() == (48 + n) as u8);
        assert(dec_value(dec_digits(n)) == ((48 + n) as u8 - 48) as nat);
    } else {
        lemma_dec_value_of_digits(n / 10);
        assert(dec_digits(n).drop_last() =~= dec_digits(n / 10));
        assert(dec_digits(n).last() == (48 + n % 10) as u8);
        assert(dec_value(dec_digits(n)) == (n / 10) * 10 + n % 10);
        assert(n == (n / 10) * 10 + n % 10);
    }
}

proof fn lemma_dec_value_bound(s: Seq<u8>)
    requires
        all_digits(s),
    ensures
        dec_value(s) < pow10(s.len()),
    decreases s.len(),
{
    if s.len() > 0 {
        lemma_dec_value_bound(s.drop_last());
    }
}

proof fn lemma_dec_value_front(c: u8, rest: Seq<u8>)
    requires
        is_dec_digit(c),
        all_digits(rest),
    ensures
        dec_value(seq![c] + rest) == (c - 48) * pow10(rest.len()) + dec_value(rest),
    decreases rest.len(),
{
    let x = seq![c] + rest;
    if rest.len() == 0 {
        assert(x =~= seq![c]);
        assert(dec_value(Seq::<u8>::empty()) == 0);
        assert(pow10(0) == 1);
        assert(x.drop_last() =~= Seq::<u8>::empty());
        assert(dec_value(x) == (c - 48) as nat);
    } else {
        assert(x.drop_last() =~= seq![c] + rest.drop_last());
        assert(x.last() == rest.last());
        assert(forall|i: int|
            0 <= i < rest.drop_last().len() ==> rest.drop_last()[i] == rest[i]
                && is_dec_digit(rest.drop_last()[i]));
        lemma_dec_value_front(c, rest.drop_last());
        let k = (rest.len() - 1) as nat;
        assert(pow10(rest.len()) == 10 * pow10(k));
        assert(dec_value(x) == dec_value(x.drop_last()) * 10 + (x.last() - 48) as nat);
        assert(dec_value(x.drop_last()) == (c - 48) * pow10(k) + dec_value(rest.drop_last()));
        assert(dec_value(rest) == dec_value(rest.drop_last()) * 10 + (rest.last() - 48) as nat);
        assert(((c - 48) * pow10(k) + dec_value(rest.drop_last())) * 10 == (c - 48) * pow10(
            rest.len(),
        ) + dec_value(rest.drop_last()) * 10) by (nonlinear_arith)
            requires
                pow10(rest.len()) == 10 * pow10(k),
        ;
    }
}

proof fn lemma_leading_zero(s: Seq<u8>)
    requires
        all_digits(s),
    ensures
        dec_value(seq![48u8] + s) == dec_value(s),
{
    lemma_dec_value_front(48, s);
}

/// For equal-width digit strings, numeric order decides lexicographic order
/// of any extensions, and distinct values give distinct extensions.
proof fn lemma_digit_block_lex(x: Seq<u8>, y: Seq<u8>, s: Seq<u8>, t: Seq<u8>)
    requires
        x.len() == y.len(),
        all_digits(x),
        all_digits(y),
        dec_value(x) < dec_value(y),
    ensures
        lex_le(x + s, y + t),
        x + s != y + t,
    decreases x.len(),
{
    assert(x.len() > 0);
    let x0 = x[0];
    let y0 = y[0];
    let rx = x.drop_first();
    let ry = y.drop_first();
    assert(x =~= seq![x0] + rx);
    assert(y =~= seq![y0] + ry);
    assert(forall|i: int| 0 <= i < rx.len() ==> rx[i] == x[i + 1] && is_dec_digit(rx[i]));
    assert(forall|i: int| 0 <= i < ry.len() ==> ry[i] == y[i + 1] && is_dec_digit(ry[i]));
    lemma_dec_value_front(x0, rx);
    lemma_dec_value_front(y0, ry);
    if x0 > y0 {
        lemma_dec_value_bound(ry);
        assert((x0 - 48) * pow10(rx.len()) >= (y0 - 48) * pow10(ry.len()) + pow10(ry.len()))
            by (nonlinear_arith)
            requires x0 > y0, rx.len() == ry.len(), pow10(rx.len()) == pow10(ry.len()),
        ;
        assert(false);
    } else if x0 == y0 {
        lemma_digit_block_lex(rx, ry, s, t);
        assert((x + s)[0] == (y + t)[0]);
        assert((x + s).drop_first() =~= rx + s);
        assert((y + t).drop_first() =~= ry + t);
    } else {
        assert((x + s)[0] == x0 && (y + t)[0] == y0);
        assert(lex_le(x + s, y + t));
        assert((x + s)[0] != (y + t)[0]);
    }
}

/// Equal-width digit strings with equal values are equal.
proof fn lemma_digit_block_eq(x: Seq<u8>, y: Seq<u8>)
    requires
        x.len() == y.len(),
        all_digits(x),
        all_digits(y),
        dec_value(x) == dec_value(y),
    ensures
        x == y,
    decreases x.len(),
{
    if x.len() > 0 {
        let x0 = x[0];
        let y0 = y[0];
        let rx = x.drop_first();
        let ry = y.drop_first();
        assert(x =~= seq![x0] + rx);
        assert(y =~= seq![y0] + ry);
        assert(forall|i: int| 0 <= i < rx.len() ==> rx[i] == x[i + 1] && is_dec_digit(rx[i]));
        assert(forall|i: int| 0 <= i < ry.len() ==> ry[i] == y[i + 1] && is_dec_digit(ry[i]));
        lemma_dec_value_front(x0, rx);
        lemma_dec_value_front(y0, ry);
        if x0 != y0 {
            lemma_dec_value_bound(rx);
            lemma_dec_value_bound(ry);
            assert(false) by (nonlinear_arith)
                requires
                    x0 != y0,
                    is_dec_digit(x0),
                    is_dec_digit(y0),
                    rx.len() == ry.len(),
                    pow10(rx.len()) == pow10(ry.len()),
                    dec_value(rx) < pow10(rx.len()),
                    dec_value(ry) < pow10(ry.len()),
                    (x0 - 48) * pow10(rx.len()) + dec_value(rx) == (y0 - 48) * pow10(ry.len())
                        + dec_value(ry),
            ;
        }
        lemma_digit_block_eq(rx, ry);
        assert(x =~= y);
    } else {
        assert(x =~= y);
    }
}

/// A shared prefix neither decides nor hides the comparison of what follows.
proof fn lemma_lex_common_prefix(p: Seq<u8>, a: Seq<u8>, b: Seq<u8>)
    ensures
        lex_le(p + a, p + b) == lex_le(a, b),
        (p + a == p + b) == (a == b),
    decreases p.len(),
{
    if p.len() == 0 {
        assert(p + a =~= a);
        assert(p + b =~= b);
    } else {
        lemma_lex_common_prefix(p.drop_first(), a, b);
        assert((p + a)[0] == p[0] && (p + b)[0] == p[0]);
        assert((p + a).drop_first() =~= p.drop_first() + a);
        assert((p + b).drop_first() =~= p.drop_first() + b);
        if p.drop_first() + a == p.drop_first() + b {
            assert(p + a =~= p + b);
        }
        if p + a == p + b {
            assert(p.drop_first() + a =~= (p + a).drop_first());
        }
    }
}

proof fn lemma_dec_digits_len4(n: nat)
    requires
        n <= 9999,
    ensures
        dec_digits(n).len() == if n < 10 {
            1int
        } else if n < 100 {
            2int
        } else if n < 1000 {
            3int
        } else {
            4int
        },
    decreases n,
{
    if n >= 10 {
        lemma_dec_digits_len4(n / 10);
    }
}

proof fn lemma_pad2_props(v: nat)
    requires
        v <= 99,
    ensures
        crate::store::pad2(v).len() == 2,
        all_digits(crate::store::pad2(v)),
        dec_value(crate::store::pad2(v)) == v,
{
    lemma_dec_digits_are_digits(v);
    lemma_dec_value_of_digits(v);
    lemma_dec_digits_len4(v);
    if v < 10 {
        let p = seq![48u8] + dec_digits(v);
        assert(forall|i: int| 0 <= i < p.len() ==> is_dec_digit(p[i]));
        lemma_leading_zero(dec_digits(v));
    }
}

proof fn lemma_pad4_props(v: nat)
    requires
        v <= 9999,
    ensures
        crate::store::pad4(v).len() == 4,
        all_digits(crate::store::pad4(v)),
        dec_value(crate::store::pad4(v)) == v,
{
    lemma_dec_digits_are_digits(v);
    lemma_dec_value_of_digits(v);
    lemma_dec_digits_len4(v);
    let d = dec_digits(v);
    if v < 10 {
        let p1 = seq![48u8] + d;
        let p2 = seq![48u8] + p1;
        let p3 = seq![48u8] + p2;
        assert(forall|i: int| 0 <= i < p1.len() ==> is_dec_digit(p1[i]));
        lemma_leading_zero(d);
        assert(forall|i: int| 0 <= i < p2.len() ==> is_dec_digit(p2[i]));
        lemma_leading_zero(p1);
        assert(forall|i: int| 0 <= i < p3.len() ==> is_dec_digit(p3[i]));
        lemma_leading_zero(p2);
        assert(crate::store::pad4(v) =~= p3);
    } else if v < 100 {
        let p1 = seq![48u8] + d;
        let p2 = seq![48u8] + p1;
        assert(forall|i: int| 0 <= i < p1.len() ==> is_dec_digit(p1[i]));
        lemma_leading_zero(d);
        assert(forall|i: int| 0 <= i < p2.len() ==> is_dec_digit(p2[i]));
        lemma_leading_zero(p1);
        assert(crate::store::pad4(v) =~= p2);
    } else if v < 1000 {
        let p1 = seq![48u8] + d;
        assert(forall|i: int| 0 <= i < p1.len() ==> is_dec_digit(p1[i]));
        lemma_leading_zero(d);
        assert(crate::store::pad4(v) =~= p1);
    }
}

/// Backups sort chronologically: of two snapshots, the earlier one's file
/// name comes first in lexicographic order, since each timestamp field is
/// written fixed-width, most significant first.
pub proof fn lemma_backup_names_chronological(a: Timestamp, b: Timestamp)
    requires
        a.wf(),
        b.wf(),
        a.year <= 9999,
        b.year <= 9999,
        a.before(b),
    ensures
        lex_le(backup_path_model(a), backup_path_model(b)),
        backup_path_model(a) != backup_path_model(b),
{
    let p = "/etc/nixos/backups/configuration_".spec_bytes();
    let us = "_".spec_bytes();
    let nx = ".nix".spec_bytes();
    let ya = crate::store::pad4(a.year as nat);
    let yb = crate::store::pad4(b.year as nat);
    let ma = crate::store::pad2(a.month as nat);
    let mb = crate::store::pad2(b.month as nat);
    let da = crate::store::pad2(a.day as nat);
    let db = crate::store::pad2(b.day as nat);
    let ha = crate::store::pad2(a.hour as nat);
    let hb = crate::store::pad2(b.hour as nat);
    let mia = crate::store::pad2(a.minute as nat);
    let mib = crate::store::pad2(b.minute as nat);
    let sa = crate::store::pad2(a.second as nat);
    let sb = crate::store::pad2(b.second as nat);
    lemma_pad4_props(a.year as nat);
    lemma_pad4_props(b.year as nat);
    lemma_pad2_props(a.month as nat);
    lemma_pad2_props(b.month as nat);
    lemma_pad2_props(a.day as nat);
    lemma_pad2_props(b.day as nat);
    lemma_pad2_props(a.hour as nat);
    lemma_pad2_props(b.hour as nat);
    lemma_pad2_props(a.minute as nat);
    lemma_pad2_props(b.minute as nat);
    lemma_pad2_props(a.second as nat);
    lemma_pad2_props(b.second as nat);

    // The name, re-grouped so that each block heads its own suffix.
    let ta_s = sa + nx;
    let ta_mi = mia + ta_s;
    let ta_h = ha + ta_mi;
    let ta_us = us + ta_h;
    let ta_d = da + ta_us;
    let ta_mo = ma + ta_d;
    let ta_y = ya + ta_mo;
    let tb_s = sb + nx;
    let tb_mi = mib + tb_s;
    let tb_h = hb + tb_mi;
    let tb_us = us + tb_h;
    let tb_d = db + tb_us;
    let tb_mo = mb + tb_d;
    let tb_y = yb + tb_mo;
    assert(backup_path_model(a) =~= p + ta_y);
    assert(backup_path_model(b) =~= p + tb_y);
    lemma_lex_common_prefix(p, ta_y, tb_y);

    if a.year < b.year {
        lemma_digit_block_lex(ya, yb, ta_mo, tb_mo);
    } else {
        lemma_digit_block_eq(ya, yb);
        lemma_lex_common_prefix(ya, ta_mo, tb_mo);
        if a.month < b.month {
            lemma_digit_block_lex(ma, mb, ta_d, tb_d);
        } else {
            lemma_digit_block_eq(ma, mb);
            lemma_lex_common_prefix(ma, ta_d, tb_d);
            if a.day < b.day {
                lemma_digit_block_lex(da, db, ta_us, tb_us);
            } else {
                lemma_digit_block_eq(da, db);
                lemma_lex_common_prefix(da, ta_us, tb_us);
                lemma_lex_common_prefix(us, ta_h, tb_h);
                if a.hour < b.hour {
                    lemma_digit_block_lex(ha, hb, ta_mi, tb_mi);
                } else {
                    lemma_digit_block_eq(ha, hb);
                    lemma_lex_common_prefix(ha, ta_mi, tb_mi);
                    if a.minute < b.minute {
                        lemma_digit_block_lex(mia, mib, ta_s, tb_s);
                    } else {
                        lemma_digit_block_eq(mia, mib);
                        lemma_lex_common_prefix(mia, ta_s, tb_s);
                        lemma_digit_block_lex(sa, sb, nx, nx);
                    }
                }
            }
        }
    }
}

/// Round trip: when a save commits to the path that a read would pick — the
/// target is the flake path, or an earlier search path does not exist — the
/// next read returns exactly the saved text.
pub proof fn lemma_save_then_read_round_trip(
    m: Map<Seq<u8>, FileView>,
    home: Seq<u8>,
    target: Seq<u8>,
    content: Seq<u8>,
    uid: u32,
    gid: u32,
    mtime: i64,
)
    requires
        ({
            let m2 = m.insert(target, saved_file_view(content, uid, gid, mtime));
            ||| target == flake_path()
            ||| (!m2.contains_key(flake_path()) && target == legacy_path())
            ||| (!m2.contains_key(flake_path()) && !m2.contains_key(legacy_path()) && target
                == user_path(home))
        }),
    ensures
        active_content(m.insert(target, saved_file_view(content, uid, gid, mtime)), home)
            == content,
{
}

/// Invalidity gate: text without the required state-version marker never
/// validates, whatever the syntax stage reported, and its error list names
/// the missing marker. Together with the save contract — a rejected save
/// leaves the filesystem exactly as it was — no such text ever reaches the
/// target.
pub proof fn lemma_missing_marker_invalidates(t: Seq<u8>, syntax_ok: bool, syntax_err: Option<
    Seq<u8>,
>)
    requires
        !has_state_version(t),
    ensures
        !is_valid_model(t, syntax_ok),
        errors_model(t, syntax_err).len() > 0,
        errors_model(t, syntax_err).contains(missing_state_version_msg()),
{
    let pre = match syntax_err {
        Some(e) => seq![crate::validation::syntax_error_msg(e)],
        None => Seq::<Seq<u8>>::empty(),
    };
    assert(errors_model(t, syntax_err)[pre.len() as int] == missing_state_version_msg());
}

/// Atomicity: staging a save touches only the stage path, so a save
/// interrupted after staging leaves the target exactly as it was; and
/// cleaning the stage file up afterwards leaves the whole filesystem exactly
/// as before the save began.
pub proof fn lemma_interrupted_save_atomic(
    m: Map<Seq<u8>, FileView>,
    target: Seq<u8>,
    token: u64,
    staged: FileView,
)
    requires
        !m.contains_key(stage_path_model(target, token)),
    ensures
        ({
            let sp = stage_path_model(target, token);
            let m1 = m.insert(sp, staged);
            &&& m1.contains_key(target) == m.contains_key(target)
            &&& m.contains_key(target) ==> m1[target] == m[target]
            &&& m1.remove(sp) == m
        }),
{
    let sp = stage_path_model(target, token);
    crate::store::lemma_stage_path_differs(target, token);
    assert(m.insert(sp, staged).remove(sp) =~= m);
}

} // verus!
