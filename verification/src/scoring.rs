//! The parts of a token's analysis that rest on facts rather than prices:
//! social links in its description, the state of its mint and freeze
//! authorities, and what the known smart wallets and the buy/sell balance of
//! its recent transactions show. Points are whole numbers.

use vstd::prelude::*;
use vstd::string::*;
use crate::text::{decimal, decimal_string, list_contains, texts};

verus! {

/// `p` occurs in `s`.
pub open spec fn occurs_in(p: Seq<char>, s: Seq<char>) -> bool {
    exists|i: int| 0 <= i && i + p.len() <= s.len() && #[trigger] s.subrange(i, i + p.len()) == p
}

/// Whether `p` occurs in `s`, as `str::contains` tells.
pub fn contains_text(s: &str, p: &str) -> (b: bool)
    ensures
        b == occurs_in(p@, s@),
{
    let n = s.unicode_len();
    let m = p.unicode_len();
    if m > n {
        proof {
            assert forall|i: int| 0 <= i && i + p@.len() <= s@.len() implies #[trigger] s@.subrange(i, i + p@.len()) != p@ by {}
        }
        return false;
    }
    let mut i: usize = 0;
    while i <= n - m
        invariant
            n == s@.len(),
            m == p@.len(),
            m <= n,
            i <= n - m + 1,
            forall|k: int| 0 <= k < i ==> #[trigger] s@.subrange(k, k + m) != p@,
        decreases n - m + 1 - i,
    {
        let mut j: usize = 0;
        while j < m && s.get_char(i + j) == p.get_char(j)
            invariant
                n == s@.len(),
                m == p@.len(),
                i + m <= n,
                j <= m,
                forall|t: int| 0 <= t < j ==> s@[i + t] == p@[t],
            decreases m - j,
        {
            j = j + 1;
        }
        if j == m {
            assert(s@.subrange(i as int, i + m) =~= p@);
            return true;
        }
        assert(s@.subrange(i as int, i + m)[j as int] != p@[j as int]);
        i = i + 1;
    }
    false
}

/// What a token's description says of its social channels.
pub struct SocialVerdict {
    pub has_twitter: bool,
    pub has_telegram: bool,
    /// How loudly the token is promoted, out of 100.
    pub hype: u32,
    /// Points towards the total score (at most 10).
    pub points: u32,
    pub signals: Vec<String>,
}

/// Twitter is linked: the description names `twitter` or `x.com`.
pub open spec fn mentions_twitter(desc: Seq<char>) -> bool {
    occurs_in("twitter"@, desc) || occurs_in("x.com"@, desc)
}

/// Telegram is linked: the description names `t.me` or `telegram`.
pub open spec fn mentions_telegram(desc: Seq<char>) -> bool {
    occurs_in("t.me"@, desc) || occurs_in("telegram"@, desc)
}

/// The hype and the points of a token with or without each channel: 70 and
/// 10 with both, 40 and 6 with one, 10 and 2 with none.
pub open spec fn social_marks(twitter: bool, telegram: bool) -> (nat, nat) {
    if twitter && telegram {
        (70, 10)
    } else if twitter || telegram {
        (40, 6)
    } else {
        (10, 2)
    }
}

/// The signals of the channels present, Twitter first.
pub open spec fn social_signals(twitter: bool, telegram: bool) -> Seq<Seq<char>> {
    (if twitter { seq!["\u{1f426} Twitter present"@] } else { seq![] }) + (if telegram {
        seq!["\u{1f4f1} Telegram present"@]
    } else {
        seq![]
    })
}

/// Reads the social channels off a token's description (empty when it has
/// none).
pub fn analyze_social(description: &str) -> (v: SocialVerdict)
    ensures
        v.has_twitter == mentions_twitter(description@),
        v.has_telegram == mentions_telegram(description@),
        (v.hype as nat, v.points as nat) == social_marks(v.has_twitter, v.has_telegram),
        texts(v.signals@) == social_signals(v.has_twitter, v.has_telegram),
{
    let has_twitter = contains_text(description, "twitter") || contains_text(description, "x.com");
    let has_telegram = contains_text(description, "t.me") || contains_text(description, "telegram");
    let (hype, points): (u32, u32) = if has_twitter && has_telegram {
        (70, 10)
    } else if has_twitter || has_telegram {
        (40, 6)
    } else {
        (10, 2)
    };
    let mut signals: Vec<String> = Vec::new();
    if has_twitter {
        signals.push(String::from_str("\u{1f426} Twitter present"));
    }
    if has_telegram {
        signals.push(String::from_str("\u{1f4f1} Telegram present"));
    }
    assert(texts(signals@) =~= social_signals(has_twitter, has_telegram));
    SocialVerdict { has_twitter, has_telegram, hype, points, signals }
}

/// What is known of a token's mint and freeze authorities.
pub struct SecurityVerdict {
    /// The mint authority is revoked (assumed so when nothing is known).
    pub mint_revoked: bool,
    /// The freeze authority is revoked (assumed so when nothing is known).
    pub freeze_revoked: bool,
    /// The token's metadata was found.
    pub metadata_available: bool,
    /// Points towards the total score (at most 10).
    pub points: u32,
    pub flags: Vec<String>,
    pub signals: Vec<String>,
}

/// The red flags of a token's authorities: unknown security, or an authority
/// that is not revoked.
pub open spec fn security_flags(authorities: Option<(bool, bool)>) -> Seq<Seq<char>> {
    match authorities {
        None => seq!["\u{26a0}\u{fe0f} Security data unavailable \u{2014} Helius not indexed yet"@],
        Some((mint_revoked, freeze_revoked)) => (if mint_revoked {
            seq![]
        } else {
            seq!["\u{1f534} Mint authority NOT revoked \u{2014} risk of new token minting"@]
        }) + (if freeze_revoked {
            seq![]
        } else {
            seq!["\u{26a0}\u{fe0f} Freeze authority active \u{2014} wallets can be frozen"@]
        }),
    }
}

/// The good signs of a token's authorities: each one confirmed revoked.
pub open spec fn security_signals(authorities: Option<(bool, bool)>) -> Seq<Seq<char>> {
    match authorities {
        None => seq![],
        Some((mint_revoked, freeze_revoked)) => (if mint_revoked {
            seq!["\u{2705} Mint authority revoked"@]
        } else {
            seq![]
        }) + (if freeze_revoked {
            seq!["\u{2705} Freeze authority revoked"@]
        } else {
            seq![]
        }),
    }
}

/// Points only for what the metadata confirms: 6 for a revoked mint
/// authority, 4 for a revoked freeze authority.
pub open spec fn security_points(authorities: Option<(bool, bool)>) -> nat {
    match authorities {
        None => 0,
        Some((mint_revoked, freeze_revoked)) => (if mint_revoked { 6nat } else { 0nat }) + (if freeze_revoked {
            4nat
        } else {
            0nat
        }),
    }
}

/// Judges a token's authorities from its metadata, given as whether the mint
/// and the freeze authority are revoked, or `None` when no metadata was
/// found (then both are taken as revoked, but earn no points).
pub fn analyze_security(authorities: Option<(bool, bool)>) -> (v: SecurityVerdict)
    ensures
        v.metadata_available == authorities is Some,
        v.mint_revoked == match authorities { Some((m, _)) => m, None => true },
        v.freeze_revoked == match authorities { Some((_, f)) => f, None => true },
        v.points == security_points(authorities),
        texts(v.flags@) == security_flags(authorities),
        texts(v.signals@) == security_signals(authorities),
{
    let mut flags: Vec<String> = Vec::new();
    let mut signals: Vec<String> = Vec::new();
    match authorities {
        None => {
            flags.push(String::from_str("\u{26a0}\u{fe0f} Security data unavailable \u{2014} Helius not indexed yet"));
            assert(texts(flags@) =~= security_flags(authorities));
            assert(texts(signals@) =~= security_signals(authorities));
            SecurityVerdict {
                mint_revoked: true,
                freeze_revoked: true,
                metadata_available: false,
                points: 0,
                flags,
                signals,
            }
        },
        Some((mint_revoked, freeze_revoked)) => {
            if mint_revoked {
                signals.push(String::from_str("\u{2705} Mint authority revoked"));
            } else {
                flags.push(String::from_str("\u{1f534} Mint authority NOT revoked \u{2014} risk of new token minting"));
            }
            if freeze_revoked {
                signals.push(String::from_str("\u{2705} Freeze authority revoked"));
            } else {
                flags.push(String::from_str("\u{26a0}\u{fe0f} Freeze authority active \u{2014} wallets can be frozen"));
            }
            let points: u32 = (if mint_revoked { 6 } else { 0 }) + (if freeze_revoked { 4 } else { 0 });
            assert(texts(flags@) =~= security_flags(authorities));
            assert(texts(signals@) =~= security_signals(authorities));
            SecurityVerdict { mint_revoked, freeze_revoked, metadata_available: true, points, flags, signals }
        },
    }
}

/// What the recent transactions of a token show of the big players.
pub struct WhaleVerdict {
    /// Transactions paid by one of the known smart wallets.
    pub smart_wallets_entered: u32,
    /// Clearly more buying than selling: over twice as many buys as sells.
    pub accumulation: bool,
    /// More sells than buys.
    pub distribution: bool,
    /// Points towards the total score (at most 20).
    pub points: u32,
    pub signals: Vec<String>,
}

/// The whale points: 12 for three or more smart wallets, 6 for one or two;
/// 5 more for accumulation without distribution, 5 less for distribution;
/// kept between 0 and 20.
pub open spec fn whale_points(smart: nat, accumulation: bool, distribution: bool) -> nat {
    let base: int = if smart >= 3 { 12 } else if smart >= 1 { 6 } else { 0 };
    let adjusted: int = base + (if accumulation && !distribution { 5int } else { 0int }) - (if distribution {
        5int
    } else {
        0int
    });
    if adjusted < 0 {
        0
    } else if adjusted > 20 {
        20
    } else {
        adjusted as nat
    }
}

/// The whale signals: the smart wallets when three or more came in, then a
/// clean accumulation.
pub open spec fn whale_signals(smart: nat, accumulation: bool, distribution: bool) -> Seq<Seq<char>> {
    (if smart >= 3 {
        seq!["\u{1f40b} "@ + decimal(smart) + " smart wallets entered!"@]
    } else {
        seq![]
    }) + (if accumulation && !distribution {
        seq!["\u{1f4c8} Clear accumulation pattern \u{2014} no distribution"@]
    } else {
        seq![]
    })
}

/// Judges the big players from the number of transactions paid by known
/// smart wallets and the numbers of buying and selling transactions.
pub fn analyze_whales(smart_wallets_entered: u32, buys: usize, sells: usize) -> (v: WhaleVerdict)
    ensures
        v.smart_wallets_entered == smart_wallets_entered,
        v.accumulation == (buys > 2 * sells),
        v.distribution == (sells > buys),
        v.points == whale_points(smart_wallets_entered as nat, v.accumulation, v.distribution),
        texts(v.signals@) == whale_signals(smart_wallets_entered as nat, v.accumulation, v.distribution),
{
    let accumulation = buys as u128 > 2 * sells as u128;
    let distribution = sells > buys;
    let mut signals: Vec<String> = Vec::new();
    if smart_wallets_entered >= 3 {
        let mut s = String::from_str("\u{1f40b} ");
        s.append(decimal_string(smart_wallets_entered as u64).as_str());
        s.append(" smart wallets entered!");
        signals.push(s);
    }
    if accumulation && !distribution {
        signals.push(String::from_str("\u{1f4c8} Clear accumulation pattern \u{2014} no distribution"));
    }
    let base: i32 = if smart_wallets_entered >= 3 { 12 } else if smart_wallets_entered >= 1 { 6 } else { 0 };
    let bonus: i32 = if accumulation && !distribution { 5 } else { 0 };
    let malus: i32 = if distribution { 5 } else { 0 };
    let adjusted = base + bonus - malus;
    let points: u32 = if adjusted < 0 { 0 } else if adjusted > 20 { 20 } else { adjusted as u32 };
    assert(texts(signals@) =~= whale_signals(smart_wallets_entered as nat, accumulation, distribution));
    WhaleVerdict { smart_wallets_entered, accumulation, distribution, points, signals }
}

/// Whether the fee payer of a transaction is one of the known smart wallets.
pub open spec fn paid_by_smart_wallet(fee_payer: Option<Seq<char>>, smart: Seq<Seq<char>>) -> bool {
    match fee_payer {
        Some(p) => smart.contains(p),
        None => false,
    }
}

/// The number of transactions, among those given by their fee payers, paid
/// by a known smart wallet.
pub open spec fn smart_entries(payers: Seq<Option<Seq<char>>>, smart: Seq<Seq<char>>) -> nat
    decreases payers.len(),
{
    if payers.len() == 0 {
        0
    } else {
        smart_entries(payers.drop_last(), smart) + if paid_by_smart_wallet(payers.last(), smart) {
            1nat
        } else {
            0nat
        }
    }
}

/// The fee payers' texts.
pub open spec fn payer_texts(payers: Seq<Option<String>>) -> Seq<Option<Seq<char>>> {
    payers.map_values(|p: Option<String>| match p {
        Some(s) => Some(s@),
        None => None,
    })
}

/// Counts the transactions paid by one of the known smart wallets, given the
/// fee payer of each transaction (`None` where it is unknown).
pub fn count_smart_entries(fee_payers: &Vec<Option<String>>, smart_wallets: &Vec<String>) -> (n: u32)
    requires
        fee_payers@.len() <= u32::MAX,
    ensures
        n == smart_entries(payer_texts(fee_payers@), texts(smart_wallets@)),
{
    let ghost ps = payer_texts(fee_payers@);
    let ghost sw = texts(smart_wallets@);
    let mut n: u32 = 0;
    let mut i: usize = 0;
    assert(ps.take(0) =~= Seq::<Option<Seq<char>>>::empty());
    while i < fee_payers.len()
        invariant
            i <= fee_payers.len(),
            fee_payers@.len() <= u32::MAX,
            ps == payer_texts(fee_payers@),
            sw == texts(smart_wallets@),
            n == smart_entries(ps.take(i as int), sw),
            n <= i,
        decreases fee_payers.len() - i,
    {
        assert(ps.take(i + 1).drop_last() =~= ps.take(i as int));
        let hit = match &fee_payers[i] {
            Some(p) => list_contains(smart_wallets, p.as_str()),
            None => false,
        };
        assert(hit == paid_by_smart_wallet(ps[i as int], sw));
        if hit {
            n = n + 1;
        }
        i = i + 1;
    }
    assert(ps.take(fee_payers@.len() as int) =~= ps);
    n
}

/// `p` occurs in any text made of something, `p`, and something else; and a
/// pattern longer than the text never occurs in it.
pub proof fn law_occurs_in_meaning(p: Seq<char>, a: Seq<char>, b: Seq<char>)
    ensures
        occurs_in(p, a + p + b),
        p.len() > (a + b).len() ==> !occurs_in(p, a + b),
{
    let s = a + p + b;
    assert(s.subrange(a.len() as int, (a.len() + p.len()) as int) =~= p);
}

/// A description links Twitter exactly when it mentions "twitter" or
/// "x.com", and Telegram exactly when it mentions "t.me" or "telegram".
pub proof fn law_social_channels(desc: Seq<char>)
    ensures
        mentions_twitter(desc) <==> occurs_in("twitter"@, desc) || occurs_in("x.com"@, desc),
        mentions_telegram(desc) <==> occurs_in("t.me"@, desc) || occurs_in("telegram"@, desc),
{
}

/// Each channel present adds to the hype and the points, and is named in the
/// signals, Twitter before Telegram: none gives 10 and 2, one gives 40 and 6,
/// both give 70 and 10.
pub proof fn law_social_marks(twitter: bool, telegram: bool)
    ensures
        social_marks(false, false) == (10nat, 2nat),
        social_marks(true, false) == (40nat, 6nat) && social_marks(false, true) == (40nat, 6nat),
        social_marks(true, true) == (70nat, 10nat),
        social_signals(twitter, telegram).len() == (if twitter { 1nat } else { 0nat }) + (if telegram {
            1nat
        } else {
            0nat
        }),
        twitter ==> social_signals(twitter, telegram)[0] == "\u{1f426} Twitter present"@,
        telegram ==> social_signals(twitter, telegram).last() == "\u{1f4f1} Telegram present"@,
{
}

/// Security points come only from confirmed revocations: 6 for the mint
/// authority, 4 for the freeze authority, none when nothing is known;
/// revoking an authority never lowers them. Each known authority is either a
/// signal (revoked) or a red flag (not revoked), never both.
pub proof fn law_security_points(mint_revoked: bool, freeze_revoked: bool)
    ensures
        security_points(None) == 0,
        security_points(Some((true, true))) == 10,
        security_points(Some((mint_revoked, freeze_revoked))) == (if mint_revoked { 6nat } else { 0nat }) + (
        if freeze_revoked {
            4nat
        } else {
            0nat
        }),
        security_points(Some((mint_revoked, freeze_revoked))) <= security_points(Some((true, freeze_revoked))),
        security_points(Some((mint_revoked, freeze_revoked))) <= security_points(Some((mint_revoked, true))),
        security_flags(Some((mint_revoked, freeze_revoked))).len() + security_signals(
            Some((mint_revoked, freeze_revoked)),
        ).len() == 2,
        security_flags(Some((mint_revoked, freeze_revoked))).len() == 0 <==> mint_revoked && freeze_revoked,
        security_signals(None).len() == 0 && security_flags(None).len() == 1,
{
}

/// Whale points stay between 0 and 20; more smart wallets never lower them,
/// distribution never raises them, and a clean accumulation adds 5.
pub proof fn law_whale_points(smart: nat, more: nat, accumulation: bool, distribution: bool)
    ensures
        whale_points(smart, accumulation, distribution) <= 20,
        smart <= more ==> whale_points(smart, accumulation, distribution) <= whale_points(more, accumulation, distribution),
        whale_points(smart, accumulation, true) <= whale_points(smart, accumulation, false),
        whale_points(0, false, false) == 0,
        whale_points(smart, true, false) == whale_points(smart, false, false) + 5,
        smart >= 3 ==> whale_points(smart, false, false) == 12,
        1 <= smart < 3 ==> whale_points(smart, false, false) == 6,
{
}

/// A token's transactions never show accumulation and distribution at once.
pub proof fn law_accumulation_excludes_distribution(buys: nat, sells: nat)
    ensures
        !(buys > 2 * sells && sells > buys),
{
}

} // verus!
