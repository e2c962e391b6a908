//! The price of shares and how it rounds.

use vstd::arithmetic::div_mod::lemma_fundamental_div_mod;
use vstd::prelude::*;

verus! {

/// The quotient rounded up.
pub open spec fn div_up(a: int, b: int) -> int {
    (a + b - 1) / b
}

/// The shares that an amount buys when `total_shares` shares stand for `total_staked`, rounded up.
/// While nothing is staked, a share costs one.
pub open spec fn shares_for(total_shares: int, total_staked: int, amount: int) -> int {
    if total_staked == 0 {
        amount
    } else {
        div_up(total_shares * amount, total_staked)
    }
}

/// The shares that change hands for an amount. Where there are no shares yet, there is no price
/// either, and an amount stands for as many shares, whatever is staked.
pub open spec fn shares_at_price(total_shares: int, total_staked: int, amount: int) -> int {
    if total_shares == 0 {
        amount
    } else {
        shares_for(total_shares, total_staked, amount)
    }
}

/// The balance that `shares` shares stand for when `total_shares` shares stand for
/// `total_staked`, rounded down.
pub open spec fn value_of(total_shares: int, total_staked: int, shares: int) -> int {
    if total_shares > 0 {
        total_staked * shares / total_shares
    } else {
        0
    }
}

/// Rounding up gives the least number whose multiple reaches the dividend.
pub proof fn lemma_div_up(a: int, b: int)
    requires
        0 <= a,
        0 < b,
    ensures
        0 <= div_up(a, b),
        a <= div_up(a, b) * b < a + b,
{
    let q = div_up(a, b);
    lemma_fundamental_div_mod(a + b - 1, b);
    assert(b * q == q * b) by (nonlinear_arith);
    assert(0 <= q) by (nonlinear_arith)
        requires
            0 < b,
            0 <= a <= q * b,
    ;
}

/// Rounding down gives the greatest number whose multiple does not exceed the dividend.
pub proof fn lemma_div_down(a: int, b: int)
    requires
        0 <= a,
        0 < b,
    ensures
        0 <= a / b,
        a / b * b <= a < a / b * b + b,
{
    let q = a / b;
    lemma_fundamental_div_mod(a, b);
    assert(b * q == q * b) by (nonlinear_arith);
    assert(0 <= q) by (nonlinear_arith)
        requires
            0 < b,
            0 <= a < q * b + b,
    ;
}

/// Only one number is a quotient rounded down.
pub proof fn lemma_quotient_is_unique(a: int, b: int, q: int)
    requires
        0 <= a,
        0 < b,
        q * b <= a < q * b + b,
    ensures
        a / b == q,
{
    let p = a / b;
    lemma_div_down(a, b);
    assert(p == q) by (nonlinear_arith)
        requires
            p * b <= a < p * b + b,
            q * b <= a < q * b + b,
            0 < b,
    ;
}

/// The shares that an amount costs are the fewest that are worth the amount at the exact price:
/// `n` shares are enough if and only if `n * total_staked >= total_shares * amount`.
pub proof fn law_shares_are_fewest_worth_the_amount(
    total_shares: int,
    total_staked: int,
    amount: int,
    n: int,
)
    requires
        0 <= total_shares,
        0 < total_staked,
        0 <= amount,
    ensures
        0 <= shares_for(total_shares, total_staked, amount),
        n >= shares_for(total_shares, total_staked, amount) <==> n * total_staked >= total_shares
            * amount,
{
    let a = total_shares * amount;
    assert(0 <= a) by (nonlinear_arith)
        requires
            0 <= total_shares,
            0 <= amount,
            a == total_shares * amount,
    ;
    lemma_div_up(a, total_staked);
    let q = div_up(a, total_staked);
    if n >= q {
        assert(n * total_staked >= q * total_staked) by (nonlinear_arith)
            requires
                n >= q,
                0 < total_staked,
        ;
    } else {
        assert(n * total_staked <= q * total_staked - total_staked) by (nonlinear_arith)
            requires
                n <= q - 1,
                0 < total_staked,
        ;
    }
}

/// The price is fixed: a purchase that needs no rounding leaves the staked balance per share as it
/// was, `(total_staked + amount) / (total_shares + n) = total_staked / total_shares`.
pub proof fn law_exact_purchase_keeps_price(total_shares: int, total_staked: int, amount: int)
    requires
        0 <= total_shares,
        0 < total_staked,
        0 <= amount,
        total_shares * amount % total_staked == 0,
    ensures
        (total_staked + amount) * total_shares == total_staked * (total_shares + shares_for(
            total_shares,
            total_staked,
            amount,
        )),
{
    let a = total_shares * amount;
    let q = a / total_staked;
    let n = shares_for(total_shares, total_staked, amount);
    lemma_fundamental_div_mod(a, total_staked);
    law_shares_are_fewest_worth_the_amount(total_shares, total_staked, amount, q);
    law_shares_are_fewest_worth_the_amount(total_shares, total_staked, amount, q - 1);
    assert(q * total_staked == total_staked * q && (q - 1) * total_staked == total_staked * q
        - total_staked) by (nonlinear_arith);
    assert(n == q);
    assert((total_staked + amount) * total_shares == total_staked * (total_shares + n))
        by (nonlinear_arith)
        requires
            total_shares * amount == total_staked * n,
    ;
}

/// While a share is worth at least one, an amount never costs more shares than it has units.
pub proof fn lemma_shares_for_bound(total_shares: int, total_staked: int, amount: int)
    requires
        0 <= total_shares <= total_staked,
        0 <= amount,
    ensures
        0 <= shares_for(total_shares, total_staked, amount) <= amount,
{
    if total_staked > 0 {
        law_shares_are_fewest_worth_the_amount(total_shares, total_staked, amount, amount);
        assert(amount * total_staked >= total_shares * amount) by (nonlinear_arith)
            requires
                0 <= total_shares <= total_staked,
                0 <= amount,
        ;
    }
}

/// While a share is worth at least one, no amount stands for more shares than it has units, and
/// only the amount zero stands for none.
pub proof fn lemma_shares_at_price_bound(total_shares: int, total_staked: int, amount: int)
    requires
        0 <= total_shares <= total_staked,
        0 <= amount,
    ensures
        0 <= shares_at_price(total_shares, total_staked, amount) <= amount,
        shares_at_price(total_shares, total_staked, amount) > 0 <==> amount > 0,
{
    if total_shares > 0 {
        lemma_shares_for_bound(total_shares, total_staked, amount);
        law_shares_are_fewest_worth_the_amount(total_shares, total_staked, amount, 0);
        if amount > 0 {
            assert(total_shares * amount > 0) by (nonlinear_arith)
                requires
                    0 < total_shares,
                    0 < amount,
            ;
        }
    }
}

/// Whoever has the shares that an amount costs, out of all there are, asks for no more than what
/// is staked.
pub proof fn lemma_affordable_is_staked(
    total_shares: int,
    total_staked: int,
    amount: int,
    shares: int,
)
    requires
        0 <= shares <= total_shares <= total_staked,
        0 < amount,
        shares_at_price(total_shares, total_staked, amount) <= shares,
    ensures
        0 < total_shares,
        amount <= total_staked,
{
    law_shares_are_fewest_worth_the_amount(total_shares, total_staked, amount, shares);
    assert(amount <= total_staked) by (nonlinear_arith)
        requires
            shares * total_staked >= total_shares * amount,
            0 <= shares <= total_shares,
            0 < total_shares,
            0 <= total_staked,
    ;
}

/// Shares are enough for an amount if and only if their balance, rounded down, reaches it.
pub proof fn lemma_affordable_up_to_value(
    total_shares: int,
    total_staked: int,
    amount: int,
    shares: int,
)
    requires
        0 <= shares <= total_shares <= total_staked,
        0 < amount,
    ensures
        shares_at_price(total_shares, total_staked, amount) <= shares <==> amount <= value_of(
            total_shares,
            total_staked,
            shares,
        ),
{
    if total_shares > 0 {
        law_shares_are_fewest_worth_the_amount(total_shares, total_staked, amount, shares);
        assert(0 <= total_staked * shares) by (nonlinear_arith)
            requires
                0 <= total_staked,
                0 <= shares,
        ;
        lemma_div_reaches(total_staked * shares, total_shares, amount);
        assert(shares * total_staked == total_staked * shares && total_shares * amount == amount
            * total_shares) by (nonlinear_arith);
    }
}

/// All shares together are worth the whole staked balance.
pub proof fn lemma_all_shares_are_worth_everything(total_shares: int, total_staked: int)
    requires
        0 < total_shares,
        0 <= total_staked,
    ensures
        value_of(total_shares, total_staked, total_shares) == total_staked,
{
    assert(total_staked * total_shares / total_shares == total_staked) by (nonlinear_arith)
        requires
            0 < total_shares,
    ;
}

/// Without shares there is no balance.
pub proof fn lemma_no_shares_are_worth_nothing(total_shares: int, total_staked: int)
    ensures
        value_of(total_shares, total_staked, 0) == 0,
{
    if total_shares > 0 {
        assert(total_staked * 0 / total_shares == 0) by (nonlinear_arith)
            requires
                0 < total_shares,
        ;
    }
}

/// Giving shares for an amount keeps a share worth at least one.
pub proof fn lemma_unstake_keeps_price(total_shares: int, total_staked: int, amount: int)
    requires
        0 < total_shares <= total_staked,
        0 <= amount <= total_staked,
    ensures
        total_shares - shares_for(total_shares, total_staked, amount) <= total_staked - amount,
{
    let n = shares_for(total_shares, total_staked, amount);
    law_shares_are_fewest_worth_the_amount(total_shares, total_staked, amount, n);
    assert(total_shares - n <= total_staked - amount) by (nonlinear_arith)
        requires
            n * total_staked >= total_shares * amount,
            0 <= total_shares <= total_staked,
            0 < total_staked,
            0 <= amount <= total_staked,
    ;
}

/// A part of the shares is worth at most the whole staked balance.
pub proof fn lemma_value_bound(total_shares: int, total_staked: int, shares: int)
    requires
        0 <= shares <= total_shares,
        0 <= total_staked,
    ensures
        0 <= value_of(total_shares, total_staked, shares) <= total_staked,
{
    if total_shares > 0 {
        assert(0 <= total_staked * shares <= total_staked * total_shares) by (nonlinear_arith)
            requires
                0 <= shares <= total_shares,
                0 <= total_staked,
        ;
        lemma_div_down(total_staked * shares, total_shares);
        let q = total_staked * shares / total_shares;
        assert(q <= total_staked) by (nonlinear_arith)
            requires
                q * total_shares <= total_staked * total_shares,
                0 < total_shares,
        ;
    }
}

/// A quotient that is rounded down reaches `n` if and only if the dividend reaches `n` times the
/// divisor.
pub proof fn lemma_div_reaches(a: int, b: int, n: int)
    requires
        0 <= a,
        0 < b,
    ensures
        a / b >= n <==> a >= n * b,
{
    lemma_div_down(a, b);
    let q = a / b;
    if q >= n {
        assert(q * b >= n * b) by (nonlinear_arith)
            requires
                q >= n,
                0 < b,
        ;
    } else {
        assert(q * b + b <= n * b) by (nonlinear_arith)
            requires
                q + 1 <= n,
                0 < b,
        ;
    }
}

/// Whoever buys shares for an amount holds at least the amount more afterwards, whatever they held
/// before. The gain beyond the amount is less than the former staked balance per new share (the
/// price of one share, at most) and one for rounding. Whoever held no shares before gains less
/// than the price of one share beyond the amount.
pub proof fn lemma_purchase_is_worth_the_amount(
    total_shares: int,
    total_staked: int,
    amount: int,
    shares: int,
)
    requires
        0 <= shares <= total_shares,
        0 < total_shares,
        0 < total_staked,
        0 <= amount,
    ensures
        ({
            let n = shares_for(total_shares, total_staked, amount);
            let before = value_of(total_shares, total_staked, shares);
            let after = value_of(total_shares + n, total_staked + amount, shares + n);
            &&& before + amount <= after
            &&& (after - before - amount - 1) * (total_shares + n) < total_staked
            &&& shares == 0 ==> before == 0 && (after - amount) * (total_shares + n) < total_staked
        }),
{
    let n = shares_for(total_shares, total_staked, amount);
    let s = total_shares + n;
    let t = total_staked + amount;
    law_shares_are_fewest_worth_the_amount(total_shares, total_staked, amount, n);
    law_shares_are_fewest_worth_the_amount(total_shares, total_staked, amount, n - 1);
    assert(0 <= total_staked * shares && 0 <= t * (shares + n)) by (nonlinear_arith)
        requires
            0 <= shares,
            0 <= n,
            0 <= total_staked <= t,
    ;
    lemma_div_down(total_staked * shares, total_shares);
    lemma_div_down(t * (shares + n), s);
    let before = total_staked * shares / total_shares;
    let after = t * (shares + n) / s;
    // What the buyer pays less than the shares are worth.
    let x = n * total_staked - total_shares * amount;
    assert(n * total_staked - total_staked == (n - 1) * total_staked) by (nonlinear_arith);
    assert(0 <= x < total_staked);
    // All shares bear the difference, the buyer's own among them.
    assert((total_staked + amount) * (shares + n) * total_shares - (total_staked * shares + amount
        * total_shares) * (total_shares + n) == (n * total_staked - total_shares * amount) * (
    total_shares - shares)) by (nonlinear_arith);
    assert(0 <= x * (total_shares - shares) <= x * total_shares) by (nonlinear_arith)
        requires
            0 <= x,
            0 <= shares <= total_shares,
    ;
    let paid = (before + amount) * s;
    let held = t * (shares + n);
    assert(paid <= held) by {
        assert(paid * total_shares == (before * total_shares + amount * total_shares) * s)
            by (nonlinear_arith)
            requires
                paid == (before + amount) * s,
        ;
        assert((before * total_shares + amount * total_shares) * s <= (total_staked * shares
            + amount * total_shares) * s) by (nonlinear_arith)
            requires
                before * total_shares <= total_staked * shares,
                0 <= s,
        ;
        assert(paid <= held) by (nonlinear_arith)
            requires
                paid * total_shares <= held * total_shares,
                0 < total_shares,
        ;
    }
    lemma_div_reaches(held, s, before + amount);
    assert((after - before - amount - 1) * s < total_staked) by {
        let least = (before + 1 + amount) * s;
        assert(least * total_shares == (before * total_shares + total_shares + amount
            * total_shares) * s) by (nonlinear_arith)
            requires
                least == (before + 1 + amount) * s,
        ;
        assert((before * total_shares + total_shares + amount * total_shares) * s >= (total_staked
            * shares + amount * total_shares) * s) by (nonlinear_arith)
            requires
                total_staked * shares < before * total_shares + total_shares,
                0 <= s,
        ;
        assert(held - least <= x) by (nonlinear_arith)
            requires
                held * total_shares - least * total_shares <= x * total_shares,
                0 < total_shares,
        ;
        assert((after - before - amount - 1) * s == after * s - least) by (nonlinear_arith)
            requires
                least == (before + 1 + amount) * s,
        ;
    }
    if shares == 0 {
        assert(before == 0) by (nonlinear_arith)
            requires
                before == total_staked * shares / total_shares,
                shares == 0,
                0 < total_shares,
        ;
        assert(held - amount * s == x) by (nonlinear_arith)
            requires
                held == t * (shares + n),
                shares == 0,
                x == n * total_staked - total_shares * amount,
                s == total_shares + n,
                t == total_staked + amount,
        ;
        assert((after - amount) * s == after * s - amount * s) by (nonlinear_arith);
    }
}

/// A purchase of shares never raises what other shares are worth, and takes from it less than the
/// price of one share, and one for rounding.
pub proof fn lemma_purchase_dilution(
    total_shares: int,
    total_staked: int,
    amount: int,
    shares: int,
)
    requires
        0 < total_shares,
        0 < total_staked,
        0 <= amount,
        0 <= shares <= total_shares,
    ensures
        ({
            let n = shares_for(total_shares, total_staked, amount);
            let before = value_of(total_shares, total_staked, shares);
            let after = value_of(total_shares + n, total_staked + amount, shares);
            &&& after <= before
            &&& (before - after - 1) * (total_shares + n) < total_staked
        }),
{
    let n = shares_for(total_shares, total_staked, amount);
    let s = total_shares + n;
    let t = total_staked + amount;
    law_shares_are_fewest_worth_the_amount(total_shares, total_staked, amount, n);
    law_shares_are_fewest_worth_the_amount(total_shares, total_staked, amount, n - 1);
    assert(0 <= total_staked * shares && 0 <= t * shares) by (nonlinear_arith)
        requires
            0 <= shares,
            0 <= total_staked <= t,
    ;
    lemma_div_down(total_staked * shares, total_shares);
    lemma_div_down(t * shares, s);
    let before = total_staked * shares / total_shares;
    let after = t * shares / s;
    // What the buyer pays less than the shares are worth, spread over all shares.
    let x = n * total_staked - total_shares * amount;
    assert(n * total_staked - total_staked == (n - 1) * total_staked) by (nonlinear_arith);
    assert(0 <= x < total_staked);
    assert(total_staked * s - t * total_shares == x) by (nonlinear_arith)
        requires
            x == n * total_staked - total_shares * amount,
            s == total_shares + n,
            t == total_staked + amount,
    ;
    assert(after * total_shares <= total_staked * shares) by {
        assert(after * s * total_shares <= t * shares * total_shares) by (nonlinear_arith)
            requires
                after * s <= t * shares,
                0 < total_shares,
        ;
        assert(t * total_shares * shares <= total_staked * s * shares) by (nonlinear_arith)
            requires
                t * total_shares <= total_staked * s,
                0 <= shares,
        ;
        let l = after * total_shares;
        let r = total_staked * shares;
        assert(after * s * total_shares == l * s && t * shares * total_shares == t * total_shares
            * shares && total_staked * s * shares == r * s) by (nonlinear_arith)
            requires
                l == after * total_shares,
                r == total_staked * shares,
        ;
        assert(l <= r) by (nonlinear_arith)
            requires
                l * s <= r * s,
                0 < s,
        ;
    }
    lemma_div_reaches(total_staked * shares, total_shares, after);
    // before * total_shares <= total_staked * shares, and t * shares < (after + 1) * s.
    assert((before - after - 1) * s * total_shares <= x * shares) by {
        assert(before * total_shares * s <= total_staked * shares * s) by (nonlinear_arith)
            requires
                before * total_shares <= total_staked * shares,
                0 <= s,
        ;
        assert(t * shares * total_shares <= (after * s + s) * total_shares) by (nonlinear_arith)
            requires
                t * shares < after * s + s,
                0 < total_shares,
        ;
        assert(total_staked * shares * s - t * shares * total_shares == (total_staked * s - t
            * total_shares) * shares) by (nonlinear_arith);
        assert((before - after - 1) * s * total_shares == before * total_shares * s - (after * s
            + s) * total_shares) by (nonlinear_arith);
    }
    assert(x * shares <= x * total_shares) by (nonlinear_arith)
        requires
            0 <= x,
            0 <= shares <= total_shares,
    ;
    let y = (before - after - 1) * s;
    assert(y <= x) by (nonlinear_arith)
        requires
            y * total_shares <= x * total_shares,
            0 < total_shares,
    ;
}

/// Shares that stay are worth no less after others are given for an amount.
pub proof fn lemma_sale_raises_price(
    total_shares: int,
    total_staked: int,
    amount: int,
    shares: int,
)
    requires
        0 < total_shares,
        0 < total_staked,
        0 <= amount <= total_staked,
        0 <= shares <= total_shares - shares_for(total_shares, total_staked, amount),
    ensures
        value_of(total_shares, total_staked, shares) <= value_of(
            total_shares - shares_for(total_shares, total_staked, amount),
            total_staked - amount,
            shares,
        ),
{
    let n = shares_for(total_shares, total_staked, amount);
    let s = total_shares - n;
    let t = total_staked - amount;
    law_shares_are_fewest_worth_the_amount(total_shares, total_staked, amount, n);
    let before = value_of(total_shares, total_staked, shares);
    assert(0 <= total_staked * shares && 0 <= t * shares) by (nonlinear_arith)
        requires
            0 <= shares,
            0 <= t <= total_staked,
    ;
    lemma_div_down(total_staked * shares, total_shares);
    if s > 0 {
        assert(t * total_shares >= total_staked * s) by (nonlinear_arith)
            requires
                n * total_staked >= total_shares * amount,
                s == total_shares - n,
                t == total_staked - amount,
        ;
        assert(before * s * total_shares <= t * shares * total_shares) by {
            assert(before * s * total_shares == before * total_shares * s) by (nonlinear_arith);
            assert(before * total_shares * s <= total_staked * shares * s) by (nonlinear_arith)
                requires
                    before * total_shares <= total_staked * shares,
                    0 < s,
            ;
            assert(total_staked * shares * s == total_staked * s * shares) by (nonlinear_arith);
            assert(total_staked * s * shares <= t * total_shares * shares) by (nonlinear_arith)
                requires
                    total_staked * s <= t * total_shares,
                    0 <= shares,
            ;
            assert(t * total_shares * shares == t * shares * total_shares) by (nonlinear_arith);
        }
        let l = before * s;
        let r = t * shares;
        assert(l <= r) by (nonlinear_arith)
            requires
                l * total_shares <= r * total_shares,
                0 < total_shares,
        ;
        lemma_div_reaches(t * shares, s, before);
    } else {
        assert(before == 0) by (nonlinear_arith)
            requires
                before == total_staked * shares / total_shares,
                shares == 0,
                0 < total_shares,
        ;
    }
}

/// Whoever gives shares for an amount holds at least the amount less afterwards.
pub proof fn lemma_sale_takes_the_amount(
    total_shares: int,
    total_staked: int,
    amount: int,
    shares: int,
)
    requires
        0 < total_shares,
        0 < total_staked,
        0 <= amount <= total_staked,
        shares_for(total_shares, total_staked, amount) <= shares <= total_shares,
    ensures
        ({
            let n = shares_for(total_shares, total_staked, amount);
            value_of(total_shares - n, total_staked - amount, shares - n) <= value_of(
                total_shares,
                total_staked,
                shares,
            ) - amount
        }),
{
    let n = shares_for(total_shares, total_staked, amount);
    let s = total_shares - n;
    let t = total_staked - amount;
    law_shares_are_fewest_worth_the_amount(total_shares, total_staked, amount, n);
    law_shares_are_fewest_worth_the_amount(total_shares, total_staked, amount, shares);
    assert(0 <= total_staked * shares && 0 <= t * (shares - n)) by (nonlinear_arith)
        requires
            0 <= n <= shares,
            0 <= t <= total_staked,
    ;
    let after = value_of(s, t, shares - n);
    let left = total_staked * shares - amount * total_shares;
    assert(after * total_shares <= left) by {
        if s > 0 {
            lemma_div_down(t * (shares - n), s);
            // What is paid beyond the amount stays with all shares that are left.
            assert((total_staked * shares - amount * total_shares) * (total_shares - n) - (
            total_staked - amount) * (shares - n) * total_shares == (total_shares - shares) * (
            total_staked * n - amount * total_shares)) by (nonlinear_arith);
            assert(0 <= (total_shares - shares) * (total_staked * n - amount * total_shares))
                by (nonlinear_arith)
                requires
                    shares <= total_shares,
                    n * total_staked >= total_shares * amount,
            ;
            assert(after * s * total_shares <= t * (shares - n) * total_shares)
                by (nonlinear_arith)
                requires
                    after * s <= t * (shares - n),
                    0 < total_shares,
            ;
            assert(after * total_shares <= left) by (nonlinear_arith)
                requires
                    after * s * total_shares <= left * s,
                    0 < s,
            ;
        } else {
            assert(after * total_shares <= left) by (nonlinear_arith)
                requires
                    after == 0,
                    left == total_staked * shares - amount * total_shares,
                    shares * total_staked >= total_shares * amount,
            ;
        }
    }
    assert((after + amount) * total_shares == after * total_shares + amount * total_shares)
        by (nonlinear_arith);
    lemma_div_reaches(total_staked * shares, total_shares, after + amount);
}

/// More staked balance for the same shares never lowers what a part of them is worth.
pub proof fn lemma_reward_raises_price(
    total_shares: int,
    total_staked: int,
    reward: int,
    shares: int,
)
    requires
        0 <= shares,
        0 <= total_staked,
        0 <= reward,
    ensures
        value_of(total_shares, total_staked, shares) <= value_of(
            total_shares,
            total_staked + reward,
            shares,
        ),
{
    if total_shares > 0 {
        assert(0 <= total_staked * shares <= (total_staked + reward) * shares) by (nonlinear_arith)
            requires
                0 <= shares,
                0 <= total_staked,
                0 <= reward,
        ;
        let before = value_of(total_shares, total_staked, shares);
        lemma_div_down(total_staked * shares, total_shares);
        lemma_div_reaches((total_staked + reward) * shares, total_shares, before);
    }
}

} // verus!
