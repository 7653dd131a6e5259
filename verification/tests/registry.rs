//! Tests of the registry operations: creation, voting, lookups and listings.

use meme_vote::AccountId;
use meme_vote::Error;
use meme_vote::MemeVote;

#[test]
fn new_works() {
    let contract = MemeVote::new();
    assert_eq!(contract.total_memes(), 0);
}

#[test]
fn add_meme_works() {
    let mut contract = MemeVote::new();
    let caller = AccountId(1);
    let title = String::from("Funny Cat");
    let url = String::from("https://example.com/cat.jpg");

    let result = contract.add_meme(caller, title.clone(), url.clone());
    assert!(result.is_ok());
    assert_eq!(result.unwrap(), 1);
    assert_eq!(contract.total_memes(), 1);

    let meme = contract.get_meme(1);
    assert!(meme.is_some());
    let meme = meme.unwrap();
    assert_eq!(meme.title, title);
    assert_eq!(meme.url, url);
    assert_eq!(meme.likes, 0);
}

#[test]
fn add_meme_title_too_long() {
    let mut contract = MemeVote::new();
    let caller = AccountId(1);
    let long_title = String::from("a").repeat(101);
    let url = String::from("https://example.com/image.jpg");

    let result = contract.add_meme(caller, long_title, url);
    assert_eq!(result, Err(Error::TitleTooLong));
}

#[test]
fn add_meme_empty_url() {
    let mut contract = MemeVote::new();
    let caller = AccountId(1);
    let title = String::from("Test");
    let url = String::from("");

    let result = contract.add_meme(caller, title, url);
    assert_eq!(result, Err(Error::EmptyUrl));
}

#[test]
fn vote_up_works() {
    let mut contract = MemeVote::new();
    let caller = AccountId(1);
    contract
        .add_meme(
            caller,
            String::from("Meme 1"),
            String::from("https://example.com/1.jpg"),
        )
        .unwrap();

    let result = contract.vote_up(caller, 1);
    assert!(result.is_ok());

    let meme = contract.get_meme(1).unwrap();
    assert_eq!(meme.likes, 1);
}

#[test]
fn vote_up_meme_not_found() {
    let mut contract = MemeVote::new();
    let caller = AccountId(1);
    let result = contract.vote_up(caller, 999);
    assert_eq!(result, Err(Error::MemeNotFound));
}

#[test]
fn vote_up_already_voted() {
    let mut contract = MemeVote::new();
    let caller = AccountId(1);
    contract
        .add_meme(
            caller,
            String::from("Meme 1"),
            String::from("https://example.com/1.jpg"),
        )
        .unwrap();

    contract.vote_up(caller, 1).unwrap();
    let result = contract.vote_up(caller, 1);
    assert_eq!(result, Err(Error::AlreadyVoted));
}

#[test]
fn has_voted_works() {
    let mut contract = MemeVote::new();
    let alice = AccountId(1);

    contract
        .add_meme(
            alice,
            String::from("Meme 1"),
            String::from("https://example.com/1.jpg"),
        )
        .unwrap();

    assert!(!contract.has_voted(alice, 1));
    contract.vote_up(alice, 1).unwrap();
    assert!(contract.has_voted(alice, 1));
}

#[test]
fn get_memes_works() {
    let mut contract = MemeVote::new();
    let caller = AccountId(1);

    for i in 1..=5 {
        contract
            .add_meme(
                caller,
                format!("Meme {}", i),
                format!("https://example.com/{}.jpg", i),
            )
            .unwrap();
    }

    let memes = contract.get_memes(1, 3);
    assert_eq!(memes.len(), 3);
    assert_eq!(memes[0].title, "Meme 1");
    assert_eq!(memes[2].title, "Meme 3");
}

#[test]
fn get_top_memes_works() {
    let mut contract = MemeVote::new();
    let caller = AccountId(1);

    for i in 1..=3 {
        contract
            .add_meme(
                caller,
                format!("Meme {}", i),
                format!("https://example.com/{}.jpg", i),
            )
            .unwrap();
    }

    contract.vote_up(caller, 2).unwrap();

    let top = contract.get_top_memes(2);
    assert_eq!(top.len(), 2);
    assert_eq!(top[0].id, 2);
    assert_eq!(top[0].likes, 1);
}

#[test]
fn multiple_memes_multiple_votes() {
    let mut contract = MemeVote::new();
    let caller = AccountId(1);

    contract
        .add_meme(
            caller,
            String::from("Doge"),
            String::from("https://example.com/doge.jpg"),
        )
        .unwrap();
    contract
        .add_meme(
            caller,
            String::from("Pepe"),
            String::from("https://example.com/pepe.jpg"),
        )
        .unwrap();
    contract
        .add_meme(
            caller,
            String::from("Cat"),
            String::from("https://example.com/cat.jpg"),
        )
        .unwrap();

    assert_eq!(contract.total_memes(), 3);

    contract.vote_up(caller, 1).unwrap();
    let meme1 = contract.get_meme(1).unwrap();
    assert_eq!(meme1.likes, 1);

    contract.vote_up(caller, 2).unwrap();
    let meme2 = contract.get_meme(2).unwrap();
    assert_eq!(meme2.likes, 1);
}
