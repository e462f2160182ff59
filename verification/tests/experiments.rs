use spur::experiments::mutex_chan::fnconvert::{share, Convert, Fnconvert};
use std::sync::Arc;
use spur::experiments::mutex_chan::chan::{Chan, Select};
use spur::experiments::mutex_chan::fnconvert::{Closure, Func, Identity, StaticFunc};
use spur::experiments::post::{make_model, ModelBind, ModelBuilder, ModelBuilderStatus, ModelConvert, PostField, User};

#[test]
fn channel_hands_values_out_in_order() {
    let chan: Chan<u32> = Chan::new();
    let (tx, rx) = chan.couple();
    assert_eq!(rx.get(), None);
    tx.send(1);
    tx.send(2);
    assert_eq!(rx.get(), Some(1));
    assert_eq!(rx.get(), Some(2));
    assert_eq!(rx.get(), None);
    tx.send(3);
    assert_eq!(rx.outvalue.get_sync(), Some(3));
}

#[test]
fn two_senders_one_receiver() {
    let chan: Chan<&str> = Chan::new();
    let a = chan.sender();
    let b = chan.sender();
    let rx = chan.receiver();
    a.send("a");
    b.send("b");
    assert_eq!(rx.get(), Some("a"));
    assert_eq!(rx.get(), Some("b"));
}

#[test]
fn identity_gives_its_argument_back() {
    assert_eq!(Identity.call(7u32), 7);
    assert_eq!(Identity.call("x".to_string()), "x");
    let f: StaticFunc<u8, u8> = Box::new(Identity);
    assert_eq!(f.call(200), 200);
}

#[derive(Debug, PartialEq)]
enum Out {
    Number(u32),
    Text(String),
}

#[test]
fn select_merges_receivers_with_their_conversions() {
    let numbers: Chan<u32> = Chan::new();
    let texts: Chan<String> = Chan::new();
    let select: Select<Out> = Select::new();
    let to_number: StaticFunc<u32, Out> = Box::new(Closure::new(|n: u32| Out::Number(n + 1)));
    let to_text: StaticFunc<String, Out> = Box::new(Closure::new(|s: String| Out::Text(s)));
    select.add(numbers.receiver(), to_number);
    select.add(texts.receiver(), to_text);
    assert_eq!(select.get(), None);
    numbers.sender().send(41);
    assert_eq!(select.get_sync(), Some(Out::Number(42)));
    texts.sender().send("hi".to_string());
    assert_eq!(select.get(), Some(Out::Text("hi".to_string())));
    assert_eq!(select.get(), None);
}

#[test]
fn model_from_valid_fields() {
    let user = make_model(b"Grzegorz".to_vec(), "tajne hasło".as_bytes().to_vec(), b"x".to_vec()).unwrap();
    assert_eq!(user.login, "Grzegorz");
    assert_eq!(user.pass, "tajne hasło");
    assert_eq!(user.bad, "x");
}

#[test]
fn model_refuses_invalid_utf8() {
    assert!(make_model(b"Grzegorz".to_vec(), b"p".to_vec(), vec![129, 200, 200]).is_none());
    assert!(make_model(vec![0xff], b"p".to_vec(), b"b".to_vec()).is_none());
}

#[test]
fn builder_sets_each_field_once() {
    let mut b: ModelBuilder<User> = ModelBuilder::new();
    assert_eq!(b.set("login".to_string(), b"me".to_vec()), ModelBuilderStatus::Done);
    assert_eq!(b.set("login".to_string(), b"again".to_vec()), ModelBuilderStatus::ErrModel);
    assert_eq!(b.set("unknown".to_string(), b"x".to_vec()), ModelBuilderStatus::ErrModel);
    assert_eq!(b.set("pass".to_string(), vec![0xc3]), ModelBuilderStatus::ErrConvert);
    // a refused field is no longer pending either
    assert_eq!(b.set("pass".to_string(), b"ok".to_vec()), ModelBuilderStatus::ErrModel);
    assert_eq!(b.set("bad".to_string(), b"b".to_vec()), ModelBuilderStatus::Done);
    let user = b.get().unwrap();
    assert_eq!(user.login, "me");
    assert_eq!(user.pass, "");
    assert_eq!(user.bad, "b");
}

#[test]
fn builder_incomplete_gives_nothing() {
    let mut b: ModelBuilder<User> = ModelBuilder::new();
    assert_eq!(b.set("bad".to_string(), b"b".to_vec()), ModelBuilderStatus::Done);
    assert!(b.get().is_none());
}

#[test]
fn field_names_and_conversions() {
    assert_eq!(User::model_bind(), vec!["login".to_string(), "pass".to_string(), "bad".to_string()]);
    let f: PostField = <PostField as ModelConvert<Vec<u8>>>::from(vec![1, 2, 255]).unwrap();
    assert_eq!(f.value, vec![1, 2, 255]);
    assert_eq!(<String as ModelConvert<Vec<u8>>>::from(b"abc".to_vec()), Ok("abc".to_string()));
    assert_eq!(<String as ModelConvert<Vec<u8>>>::from(vec![0xff]), Err(()));
}

#[test]
fn conversions_chain_inner_first() {
    let double: StaticFunc<u32, u32> = Box::new(Closure::new(|x: u32| x * 2));
    let inner = share(Fnconvert::<u32, u32, u32>::new(double));
    let plus_one: StaticFunc<u32, u32> = Box::new(Closure::new(|x: u32| x + 1));
    let c: Fnconvert<u32, u32, u32> = Fnconvert::Next(inner, Arc::new(plus_one));
    assert_eq!(c.conv(3), 7);
}
