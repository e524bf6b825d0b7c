use vstd::prelude::*;
use vstd::string::*;
use crate::utils::{Credentials, Stats};

verus! {

/// The lowercase hexadecimal SHA-1 digest of a text's UTF-8 bytes.
pub uninterp spec fn sha1_hex_of(s: Seq<char>) -> Seq<char>;

/// Relies on sha1::Sha1 (`new`, `update`, `digest`, and the digest's
/// `Display`): the lowercase hex SHA-1 of the bytes given, a function of the
/// text alone.
#[verifier::external_body]
fn sha1_hex(s: &str) -> (r: String)
    ensures
        r@ == sha1_hex_of(s@),
{
    let mut hasher = sha1::Sha1::new();
    hasher.update(s.as_bytes());
    hasher.digest().to_string()
}

/// A text percent-encoded for a URL: every byte but ASCII letters, digits and
/// `-`, `_`, `.`, `~` written as `%XX`.
pub uninterp spec fn url_encoded_of(s: Seq<char>) -> Seq<char>;

/// Relies on urlencoding::encode: the percent-encoding of the text, a
/// function of the text alone.
#[verifier::external_body]
fn url_encode(s: &str) -> (r: String)
    ensures
        r@ == url_encoded_of(s@),
{
    urlencoding::encode(s)
}

pub open spec fn digit_char(d: int) -> char {
    if d == 0 { '0' }
    else if d == 1 { '1' }
    else if d == 2 { '2' }
    else if d == 3 { '3' }
    else if d == 4 { '4' }
    else if d == 5 { '5' }
    else if d == 6 { '6' }
    else if d == 7 { '7' }
    else if d == 8 { '8' }
    else { '9' }
}

/// The decimal writing of `n`, without leading zeros.
pub open spec fn decimal(n: nat) -> Seq<char>
    decreases n,
{
    if n < 10 {
        seq![digit_char(n as int)]
    } else {
        decimal(n / 10) + seq![digit_char((n % 10) as int)]
    }
}

fn digit_str(d: u64) -> (r: &'static str)
    requires
        d < 10,
    ensures
        r@ == seq![digit_char(d as int)],
{
    if d == 0 { proof { reveal_strlit("0"); } "0" }
    else if d == 1 { proof { reveal_strlit("1"); } "1" }
    else if d == 2 { proof { reveal_strlit("2"); } "2" }
    else if d == 3 { proof { reveal_strlit("3"); } "3" }
    else if d == 4 { proof { reveal_strlit("4"); } "4" }
    else if d == 5 { proof { reveal_strlit("5"); } "5" }
    else if d == 6 { proof { reveal_strlit("6"); } "6" }
    else if d == 7 { proof { reveal_strlit("7"); } "7" }
    else if d == 8 { proof { reveal_strlit("8"); } "8" }
    else { proof { reveal_strlit("9"); } "9" }
}

/// The decimal writing of `n`.
pub fn decimal_of(n: u64) -> (r: String)
    ensures
        r@ == decimal(n as nat),
    decreases n,
{
    if n < 10 {
        String::from_str(digit_str(n))
    } else {
        let mut s = decimal_of(n / 10);
        s.append(digit_str(n % 10));
        s
    }
}

/// `url` with the signature the score service asks for: the digest of the
/// URL followed by the game's private key.
pub open spec fn signed(url: Seq<char>, private_key: Seq<char>) -> Seq<char> {
    url + "&signature="@ + sha1_hex_of(url + private_key)
}

pub fn sign(url: String, private_key: &str) -> (r: String)
    ensures
        r@ == signed(url@, private_key@),
{
    let mut to_sign = url.clone();
    to_sign.append(private_key);
    let signature = sha1_hex(to_sign.as_str());
    let mut r = url;
    r.append("&signature=");
    r.append(signature.as_str());
    r
}

/// The statistics kept by the score service, in the order they are sent.
pub open spec fn stat_key(i: int) -> Seq<char> {
    if i == 0 { "bertrand_killed"@ }
    else if i == 1 { "shots"@ }
    else if i == 2 { "powerups_activated"@ }
    else if i == 3 { "hits_taken"@ }
    else if i == 4 { "time_played"@ }
    else { "games_played"@ }
}

pub const NB_STAT_KEYS: usize = 6;

pub fn stat_key_of(i: usize) -> (r: &'static str)
    ensures
        r@ == stat_key(i as int),
{
    if i == 0 { "bertrand_killed" }
    else if i == 1 { "shots" }
    else if i == 2 { "powerups_activated" }
    else if i == 3 { "hits_taken" }
    else if i == 4 { "time_played" }
    else { "games_played" }
}

/// What a finished game adds to the `i`-th statistic: its counter, and one
/// game played.
pub open spec fn stat_value(stats: Stats, i: int) -> u64 {
    if i == 0 { stats.bertrand_killed }
    else if i == 1 { stats.shots }
    else if i == 2 { stats.powerups_activated }
    else if i == 3 { stats.hits_taken }
    else if i == 4 { stats.time_played }
    else { 1 }
}

pub fn stat_value_of(stats: &Stats, i: usize) -> (r: u64)
    ensures
        r == stat_value(*stats, i as int),
{
    if i == 0 { stats.bertrand_killed }
    else if i == 1 { stats.shots }
    else if i == 2 { stats.powerups_activated }
    else if i == 3 { stats.hits_taken }
    else if i == 4 { stats.time_played }
    else { 1 }
}

pub open spec fn score_add_query(c: Credentials, score: u32) -> Seq<char> {
    "https://api.gamejolt.com/api/game/v1_2/scores/add/?game_id="@ + c.game_id@ + "&username="@
        + c.username@ + "&user_token="@ + c.user_token@ + "&score="@ + decimal(score as nat)
        + "&sort="@ + decimal(score as nat) + "&table_id=594910"@
}

/// The signed request that records `score` for the player.
pub fn score_add_url(c: &Credentials, score: u32) -> (r: String)
    ensures
        r@ == signed(score_add_query(*c, score), c.private_key@),
{
    let value = decimal_of(score as u64);
    let mut url = String::from_str("https://api.gamejolt.com/api/game/v1_2/scores/add/?game_id=");
    url.append(c.game_id.as_str());
    url.append("&username=");
    url.append(c.username.as_str());
    url.append("&user_token=");
    url.append(c.user_token.as_str());
    url.append("&score=");
    url.append(value.as_str());
    url.append("&sort=");
    url.append(value.as_str());
    url.append("&table_id=594910");
    sign(url, c.private_key.as_str())
}

pub open spec fn top_scores_query() -> Seq<char> {
    "https://api.gamejolt.com/api/game/v1_2/scores/?game_id=587107&limit=5&table_id=594910"@
}

/// The signed request for the five best scores of the table.
pub fn top_scores_url(c: &Credentials) -> (r: String)
    ensures
        r@ == signed(top_scores_query(), c.private_key@),
{
    let url = String::from_str("https://api.gamejolt.com/api/game/v1_2/scores/?game_id=587107&limit=5&table_id=594910");
    sign(url, c.private_key.as_str())
}

pub open spec fn data_store_query(c: Credentials, key: Seq<char>) -> Seq<char> {
    "https://api.gamejolt.com/api/game/v1_2/data-store/?game_id="@ + c.game_id@ + "&key="@ + key
        + "&username="@ + c.username@ + "&user_token="@ + c.user_token@
}

/// The signed request that reads the player's `i`-th statistic.
pub fn data_store_url(c: &Credentials, i: usize) -> (r: String)
    ensures
        r@ == signed(data_store_query(*c, stat_key(i as int)), c.private_key@),
{
    let mut url = String::from_str("https://api.gamejolt.com/api/game/v1_2/data-store/?game_id=");
    url.append(c.game_id.as_str());
    url.append("&key=");
    url.append(stat_key_of(i));
    url.append("&username=");
    url.append(c.username.as_str());
    url.append("&user_token=");
    url.append(c.user_token.as_str());
    sign(url, c.private_key.as_str())
}

pub open spec fn data_store_set_query(c: Credentials, key: Seq<char>) -> Seq<char> {
    "https://api.gamejolt.com/api/game/v1_2/data-store/set/?game_id="@ + c.game_id@ + "&key="@
        + key + "&data=0&username="@ + c.username@ + "&user_token="@ + c.user_token@
}

/// The signed request that creates the player's `i`-th statistic at zero.
pub fn data_store_set_url(c: &Credentials, i: usize) -> (r: String)
    ensures
        r@ == signed(data_store_set_query(*c, stat_key(i as int)), c.private_key@),
{
    let mut url = String::from_str("https://api.gamejolt.com/api/game/v1_2/data-store/set/?game_id=");
    url.append(c.game_id.as_str());
    url.append("&key=");
    url.append(stat_key_of(i));
    url.append("&data=0&username=");
    url.append(c.username.as_str());
    url.append("&user_token=");
    url.append(c.user_token.as_str());
    sign(url, c.private_key.as_str())
}

/// One request of a batch that adds `value` to the `i`-th statistic, of the
/// game as a whole, or of the player when `per_user`.
pub open spec fn update_request(c: Credentials, i: int, value: u64, per_user: bool) -> Seq<char> {
    if per_user {
        "/data-store/update/?game_id="@ + c.game_id@ + "&key="@ + stat_key(i) + "&username="@
            + c.username@ + "&user_token="@ + c.user_token@ + "&operation=add&value="@ + decimal(
            value as nat,
        )
    } else {
        "/data-store/update/?game_id="@ + c.game_id@ + "&key="@ + stat_key(i)
            + "&operation=add&value="@ + decimal(value as nat)
    }
}

/// One request of a batch that reads the player's `i`-th statistic.
pub open spec fn fetch_request(c: Credentials, i: int) -> Seq<char> {
    "/data-store/?game_id="@ + c.game_id@ + "&key="@ + stat_key(i) + "&username="@ + c.username@
        + "&user_token="@ + c.user_token@
}

/// The first `n` requests of a batch, each signed and encoded.
pub open spec fn batch_requests(c: Credentials, stats: Stats, n: int, per_user: bool, fetch: bool) -> Seq<char>
    decreases n,
{
    if n <= 0 {
        Seq::empty()
    } else {
        let req = if fetch {
            fetch_request(c, n - 1)
        } else {
            update_request(c, n - 1, stat_value(stats, n - 1), per_user)
        };
        batch_requests(c, stats, n - 1, per_user, fetch) + "&requests[]="@ + url_encoded_of(
            signed(req, c.private_key@),
        )
    }
}

/// A batch of every statistic's request, run in parallel, signed.
pub open spec fn batch_url(c: Credentials, stats: Stats, per_user: bool, fetch: bool) -> Seq<char> {
    signed(
        "https://api.gamejolt.com/api/game/v1_2/batch?game_id="@ + c.game_id@ + batch_requests(
            c,
            stats,
            NB_STAT_KEYS as int,
            per_user,
            fetch,
        ) + "&parallel=true"@,
        c.private_key@,
    )
}

fn request_of(c: &Credentials, stats: &Stats, i: usize, per_user: bool, fetch: bool) -> (r: String)
    ensures
        r@ == if fetch {
            fetch_request(*c, i as int)
        } else {
            update_request(*c, i as int, stat_value(*stats, i as int), per_user)
        },
{
    if fetch {
        let mut req = String::from_str("/data-store/?game_id=");
        req.append(c.game_id.as_str());
        req.append("&key=");
        req.append(stat_key_of(i));
        req.append("&username=");
        req.append(c.username.as_str());
        req.append("&user_token=");
        req.append(c.user_token.as_str());
        req
    } else {
        let value = decimal_of(stat_value_of(stats, i));
        let mut req = String::from_str("/data-store/update/?game_id=");
        req.append(c.game_id.as_str());
        req.append("&key=");
        req.append(stat_key_of(i));
        if per_user {
            req.append("&username=");
            req.append(c.username.as_str());
            req.append("&user_token=");
            req.append(c.user_token.as_str());
        }
        req.append("&operation=add&value=");
        req.append(value.as_str());
        req
    }
}

fn batch_of(c: &Credentials, stats: &Stats, per_user: bool, fetch: bool) -> (r: String)
    ensures
        r@ == batch_url(*c, *stats, per_user, fetch),
{
    let mut url = String::from_str("https://api.gamejolt.com/api/game/v1_2/batch?game_id=");
    url.append(c.game_id.as_str());
    let ghost head = url@;
    let mut i: usize = 0;
    while i < NB_STAT_KEYS
        invariant
            i <= NB_STAT_KEYS,
            head == "https://api.gamejolt.com/api/game/v1_2/batch?game_id="@ + c.game_id@,
            url@ == head + batch_requests(*c, *stats, i as int, per_user, fetch),
        decreases NB_STAT_KEYS - i,
    {
        let req = request_of(c, stats, i, per_user, fetch);
        let encoded = url_encode(sign(req, c.private_key.as_str()).as_str());
        url.append("&requests[]=");
        url.append(encoded.as_str());
        i = i + 1;
    }
    url.append("&parallel=true");
    sign(url, c.private_key.as_str())
}

/// The two signed batches that add a finished game's statistics: to the
/// game's totals, and to the player's.
pub fn stats_update_urls(c: &Credentials, stats: &Stats) -> (r: (String, String))
    ensures
        r.0@ == batch_url(*c, *stats, false, false),
        r.1@ == batch_url(*c, *stats, true, false),
{
    (batch_of(c, stats, false, false), batch_of(c, stats, true, false))
}

/// The signed batch that reads every statistic of the player.
pub fn stats_fetch_url(c: &Credentials) -> (r: String)
    ensures
        r@ == batch_url(*c, Stats { bertrand_killed: 0, shots: 0, powerups_activated: 0, hits_taken: 0, time_played: 0 }, true, true),
{
    let none = Stats { bertrand_killed: 0, shots: 0, powerups_activated: 0, hits_taken: 0, time_played: 0 };
    batch_of(c, &none, true, true)
}

/// The leaderboard as shown: one line `rank. user : score` per entry.
pub open spec fn leaderboard_lines(users: Seq<Seq<char>>, sorts: Seq<Seq<char>>, n: int) -> Seq<char>
    decreases n,
{
    if n <= 0 {
        Seq::empty()
    } else {
        leaderboard_lines(users, sorts, n - 1) + decimal(n as nat) + ". "@ + users[n - 1] + " : "@
            + sorts[n - 1] + "\n"@
    }
}

pub fn leaderboard_text(users: &Vec<String>, sorts: &Vec<String>) -> (r: String)
    requires
        users@.len() == sorts@.len(),
    ensures
        r@ == leaderboard_lines(users@.map_values(|s: String| s@), sorts@.map_values(|s: String| s@), users@.len() as int),
{
    let ghost us = users@.map_values(|s: String| s@);
    let ghost ss = sorts@.map_values(|s: String| s@);
    let mut text = String::new();
    let mut i: usize = 0;
    while i < users.len()
        invariant
            i <= users@.len(),
            users@.len() == sorts@.len(),
            us == users@.map_values(|s: String| s@),
            ss == sorts@.map_values(|s: String| s@),
            text@ == leaderboard_lines(us, ss, i as int),
        decreases users@.len() - i,
    {
        let rank = decimal_of(i as u64 + 1);
        text.append(rank.as_str());
        text.append(". ");
        text.append(users[i].as_str());
        text.append(" : ");
        text.append(sorts[i].as_str());
        text.append("\n");
        i = i + 1;
    }
    text
}

/// How the `i`-th statistic is named to the player.
pub open spec fn stat_name(i: int) -> Seq<char> {
    if i == 0 { "Nombre d'ennemies tués"@ }
    else if i == 1 { "Nombre de coup tirés"@ }
    else if i == 2 { "Nombre de powerups activés"@ }
    else if i == 3 { "Nombre de coups pris"@ }
    else if i == 4 { "Temps joué (en secondes)"@ }
    else { "Nombre de parties jouées"@ }
}

fn stat_name_of(i: usize) -> (r: &'static str)
    ensures
        r@ == stat_name(i as int),
{
    if i == 0 { "Nombre d'ennemies tués" }
    else if i == 1 { "Nombre de coup tirés" }
    else if i == 2 { "Nombre de powerups activés" }
    else if i == 3 { "Nombre de coups pris" }
    else if i == 4 { "Temps joué (en secondes)" }
    else { "Nombre de parties jouées" }
}

/// The lines `name : value` of the first `n` statistics that were read successfully.
pub open spec fn stats_lines(ok: Seq<bool>, data: Seq<Seq<char>>, n: int) -> Seq<char>
    decreases n,
{
    if n <= 0 {
        Seq::empty()
    } else if ok[n - 1] {
        stats_lines(ok, data, n - 1) + stat_name(n - 1) + " : "@ + data[n - 1] + "\n"@
    } else {
        stats_lines(ok, data, n - 1)
    }
}

/// The player's statistics as shown: a heading with the player's name, then
/// one line per statistic that was read successfully, at most one per known
/// statistic.
pub fn stats_text(username: &String, ok: &Vec<bool>, data: &Vec<String>) -> (r: String)
    requires
        ok@.len() == data@.len(),
    ensures
        r@ == "Statistiques pour "@ + username@ + " :\n\n"@ + stats_lines(
            ok@,
            data@.map_values(|s: String| s@),
            if ok@.len() < NB_STAT_KEYS { ok@.len() as int } else { NB_STAT_KEYS as int },
        ),
{
    let ghost ds = data@.map_values(|s: String| s@);
    let mut text = String::from_str("Statistiques pour ");
    text.append(username.as_str());
    text.append(" :\n\n");
    let ghost head = text@;
    let mut i: usize = 0;
    while i < ok.len() && i < NB_STAT_KEYS
        invariant
            i <= ok@.len(),
            i <= NB_STAT_KEYS,
            ok@.len() == data@.len(),
            ds == data@.map_values(|s: String| s@),
            text@ == head + stats_lines(ok@, ds, i as int),
        decreases NB_STAT_KEYS - i,
    {
        if ok[i] {
            text.append(stat_name_of(i));
            text.append(" : ");
            text.append(data[i].as_str());
            text.append("\n");
        }
        i = i + 1;
    }
    text
}

} // verus!
