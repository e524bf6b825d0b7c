use bhunt::gamejolt::{
    data_store_set_url, data_store_url, decimal_of, leaderboard_text, score_add_url, sign, stats_fetch_url,
    stats_text, stats_update_urls, top_scores_url,
};
use bhunt::utils::{Credentials, Stats};

fn creds() -> Credentials {
    Credentials {
        username: "alice".to_string(),
        user_token: "tok".to_string(),
        game_id: "42".to_string(),
        private_key: "privkey".to_string(),
    }
}

#[test]
fn decimal_writing() {
    assert_eq!(decimal_of(0), "0");
    assert_eq!(decimal_of(7), "7");
    assert_eq!(decimal_of(1234), "1234");
    assert_eq!(decimal_of(u64::MAX), "18446744073709551615");
}

#[test]
fn signature_is_sha1_of_url_and_key() {
    assert_eq!(sign("abc".to_string(), ""), "abc&signature=a9993e364706816aba3e25717850c26c9cd0d89d");
    assert_eq!(sign("u".to_string(), "k"), "u&signature=68c42a321969a6abf1cf14a8d0ab4b1a07329ceb");
}

#[test]
fn score_add_request() {
    assert_eq!(score_add_url(&creds(), 1234), "https://api.gamejolt.com/api/game/v1_2/scores/add/?game_id=42&username=alice&user_token=tok&score=1234&sort=1234&table_id=594910&signature=a310b72a9f8d8e86ebf794951f742c774691327c");
}

#[test]
fn top_scores_request() {
    assert_eq!(top_scores_url(&creds()), "https://api.gamejolt.com/api/game/v1_2/scores/?game_id=587107&limit=5&table_id=594910&signature=aebc91a198462e5361185d1536f27bf70ff24efe");
}

#[test]
fn data_store_requests() {
    assert_eq!(data_store_url(&creds(), 1), "https://api.gamejolt.com/api/game/v1_2/data-store/?game_id=42&key=shots&username=alice&user_token=tok&signature=7d77305ef3b41c8fbf71359e613e8f890eb1cc78");
    assert_eq!(data_store_set_url(&creds(), 4), "https://api.gamejolt.com/api/game/v1_2/data-store/set/?game_id=42&key=time_played&data=0&username=alice&user_token=tok&signature=050c85a66af5ab5a88744a3959fa2fb51833b01a");
}

#[test]
fn stats_batches_are_signed_and_encoded() {
    let stats = Stats { bertrand_killed: 3, shots: 7, powerups_activated: 1, hits_taken: 4, time_played: 95 };
    let (global, user) = stats_update_urls(&creds(), &stats);
    assert_eq!(global, "https://api.gamejolt.com/api/game/v1_2/batch?game_id=42&requests[]=%2Fdata-store%2Fupdate%2F%3Fgame_id%3D42%26key%3Dbertrand_killed%26operation%3Dadd%26value%3D3%26signature%3Dd46043c10dc14dbec8a70e2088f8a8ee851a7a59&requests[]=%2Fdata-store%2Fupdate%2F%3Fgame_id%3D42%26key%3Dshots%26operation%3Dadd%26value%3D7%26signature%3Da3ec2971386d0216101d098eda5ddaf816b07214&requests[]=%2Fdata-store%2Fupdate%2F%3Fgame_id%3D42%26key%3Dpowerups_activated%26operation%3Dadd%26value%3D1%26signature%3D89ffac71a77ab95030c6dbda7a4de262fd603299&requests[]=%2Fdata-store%2Fupdate%2F%3Fgame_id%3D42%26key%3Dhits_taken%26operation%3Dadd%26value%3D4%26signature%3D96aa4e207e574f43b516714fb651606af3f1d8f4&requests[]=%2Fdata-store%2Fupdate%2F%3Fgame_id%3D42%26key%3Dtime_played%26operation%3Dadd%26value%3D95%26signature%3De838c0b2c14621a6348923dde43471f30f2fc861&requests[]=%2Fdata-store%2Fupdate%2F%3Fgame_id%3D42%26key%3Dgames_played%26operation%3Dadd%26value%3D1%26signature%3Dfafb8b1c0de742ec4b023f7ce9fd5c62b6afb0b3&parallel=true&signature=ad258982a1c26a1d9b350414defdac25c35910a7");
    assert_eq!(user, "https://api.gamejolt.com/api/game/v1_2/batch?game_id=42&requests[]=%2Fdata-store%2Fupdate%2F%3Fgame_id%3D42%26key%3Dbertrand_killed%26username%3Dalice%26user_token%3Dtok%26operation%3Dadd%26value%3D3%26signature%3Dbeb5a103fd03332a0d6f9ec44ff99c4630ebaba6&requests[]=%2Fdata-store%2Fupdate%2F%3Fgame_id%3D42%26key%3Dshots%26username%3Dalice%26user_token%3Dtok%26operation%3Dadd%26value%3D7%26signature%3D3dc966075cffa2252c87db8cdf72e0d99ee5100d&requests[]=%2Fdata-store%2Fupdate%2F%3Fgame_id%3D42%26key%3Dpowerups_activated%26username%3Dalice%26user_token%3Dtok%26operation%3Dadd%26value%3D1%26signature%3D204f7ccd6b5f839c79572ec1bc8b7284245d362f&requests[]=%2Fdata-store%2Fupdate%2F%3Fgame_id%3D42%26key%3Dhits_taken%26username%3Dalice%26user_token%3Dtok%26operation%3Dadd%26value%3D4%26signature%3D036b0d25ff7e9fb08543ff16983b22189563cab0&requests[]=%2Fdata-store%2Fupdate%2F%3Fgame_id%3D42%26key%3Dtime_played%26username%3Dalice%26user_token%3Dtok%26operation%3Dadd%26value%3D95%26signature%3D549048a2b87a3f0a77cf077cd30d330d871a4460&requests[]=%2Fdata-store%2Fupdate%2F%3Fgame_id%3D42%26key%3Dgames_played%26username%3Dalice%26user_token%3Dtok%26operation%3Dadd%26value%3D1%26signature%3Df35c2b086d2768284358165bfc02497851432341&parallel=true&signature=c03662b0a0feb36a7865dfc57e6fb7c4604fd738");
    assert_eq!(stats_fetch_url(&creds()), "https://api.gamejolt.com/api/game/v1_2/batch?game_id=42&requests[]=%2Fdata-store%2F%3Fgame_id%3D42%26key%3Dbertrand_killed%26username%3Dalice%26user_token%3Dtok%26signature%3Dcfd1fb4ffbbda3501c7ab06964fdd1e18f14770c&requests[]=%2Fdata-store%2F%3Fgame_id%3D42%26key%3Dshots%26username%3Dalice%26user_token%3Dtok%26signature%3D2299b86e9ee3b5e817a6d87b2c192b52aba1c293&requests[]=%2Fdata-store%2F%3Fgame_id%3D42%26key%3Dpowerups_activated%26username%3Dalice%26user_token%3Dtok%26signature%3D34bd4dd49b5963856aaba31f063ccf9373585daf&requests[]=%2Fdata-store%2F%3Fgame_id%3D42%26key%3Dhits_taken%26username%3Dalice%26user_token%3Dtok%26signature%3D7ba8fb0182356f4034ba7b8d0be50ac822522650&requests[]=%2Fdata-store%2F%3Fgame_id%3D42%26key%3Dtime_played%26username%3Dalice%26user_token%3Dtok%26signature%3D88cfc6ee04ce8b29b42ad67c72b6ac58e1617dba&requests[]=%2Fdata-store%2F%3Fgame_id%3D42%26key%3Dgames_played%26username%3Dalice%26user_token%3Dtok%26signature%3D83678958404c246b3fc09f993791e9af2a2e180f&parallel=true&signature=ebe4ea6d0ab1bdbe2096e0c339f1765875b233ac");
}

#[test]
fn leaderboard_lines() {
    let users = vec!["bob".to_string(), "eve".to_string()];
    let sorts = vec!["900".to_string(), "12".to_string()];
    assert_eq!(leaderboard_text(&users, &sorts), "1. bob : 900\n2. eve : 12\n");
    assert_eq!(leaderboard_text(&Vec::new(), &Vec::new()), "");
}

#[test]
fn stats_lines_skip_failed_reads() {
    let ok = vec![true, false, true];
    let data = vec!["5".to_string(), "x".to_string(), "2".to_string()];
    assert_eq!(
        stats_text(&"alice".to_string(), &ok, &data),
        "Statistiques pour alice :\n\nNombre d'ennemies tués : 5\nNombre de powerups activés : 2\n"
    );
}
