use sinter::hash::WYHASH_SEED;
use sinter::page::Page;
use sinter::{collect_interned_strings, get_interned, intern, IStr, Interner};
use std::collections::HashMap;
use std::sync::Mutex;

#[test]
fn eq() {
  let mut i = Interner::new();
  let hello_world = intern(&mut i, &"hello, world".to_owned());
  let banana = intern(&mut i, "banana");
  let _ = intern(&mut i, "apple");
  let hello_world2 = intern(&mut i, "hello, world");

  assert_eq!(
    hello_world, hello_world2,
    "Interning strings with the same value should be equivalent"
  );
  assert_ne!(
    hello_world, banana,
    "Interning strings with different values should not be equivalent"
  );
}

#[test]
fn long_strings() {
  let mut i = Interner::new();
  let hello = intern(&mut i, "hello");
  let e = intern(&mut i, &String::from_iter(std::iter::repeat('E').take(4000)));
  let world = intern(&mut i, "world");
  let seven = intern(&mut i, &String::from_iter(std::iter::repeat('7').take(7777)));

  let hello2 = intern(&mut i, "hello");
  let e2 = intern(&mut i, &String::from_iter(std::iter::repeat('E').take(4000)));
  let world2 = intern(&mut i, "world");
  let seven2 = intern(&mut i, &String::from_iter(std::iter::repeat('7').take(7777)));

  assert_eq!(hello, hello2,);
  assert_eq!(
    e, e2,
    "Interning long strings with the same value should be Eq"
  );
  assert_eq!(world, world2,);
  assert_eq!(
    seven, seven2,
    "Interning long strings with the same value should be Eq"
  );
  assert_eq!(e.len(), 4000);
  assert_eq!(e2.as_str().len(), 4000);
}

#[test]
fn concurrency() {
  let interner = Mutex::new(Interner::new());

  let mut a = HashMap::new();
  let mut b = HashMap::new();
  let mut c = HashMap::new();
  let mut d = HashMap::new();

  const COUNT: usize = 1_000;

  // the four runs take turns on one shared interner
  for i in 0..COUNT {
    a.insert(i, intern(&mut interner.lock().unwrap(), &format!("{i}")));
    b.insert(i, intern(&mut interner.lock().unwrap(), &format!("{i}")));
  }
  for i in (0..COUNT).rev() {
    c.insert(i, intern(&mut interner.lock().unwrap(), &format!("{i}")));
    d.insert(i, intern(&mut interner.lock().unwrap(), &format!("{i}")));
  }

  let mut results_a_b = Vec::new();
  let mut results_a_c = Vec::new();
  let mut results_a_d = Vec::new();

  for i in 0..COUNT {
    results_a_b.push(a[&i] == b[&i]);
    results_a_c.push(a[&i] == c[&i]);
    results_a_d.push(a[&i] == d[&i]);
  }

  assert_eq!(
    &results_a_b, &[true; COUNT],
    "Interning the same strings from different threads should be Eq"
  );
  assert_eq!(
    &results_a_c, &[true; COUNT],
    "Interning the same strings from different threads should be Eq"
  );
  assert_eq!(
    &results_a_d, &[true; COUNT],
    "Interning the same strings from different threads should be Eq"
  );
}

#[test]
fn wyhash() {
  let mut i = Interner::new();
  let hello_world = IStr::new(&mut i, "hello, world!");

  assert_eq!(
    hello_world.wyhash(),
    ::wyhash::wyhash("hello, world!".as_bytes(), WYHASH_SEED)
  )
}

#[test]
fn slice_index() {
  let mut i = Interner::new();
  let hello_world = IStr::new(&mut i, "hello, world!");
  let hello: &str = &hello_world.as_str()[..5];
  assert_eq!(hello, "hello");
}

#[test]
fn hash() {
  let mut i = Interner::new();
  let mut map: HashMap<IStr, u32> = HashMap::new();

  map.insert(IStr::new(&mut i, "key1234"), 1234);
  assert_eq!(Some(&1234), map.get(&IStr::new(&mut i, "key1234")));

  // check the Borrow<str> impl
  assert_eq!(Some(&1234), map.get("key1234"));
}

#[test]
fn c_bytes_end_in_nul() {
  let mut i = Interner::new();
  let h = intern(&mut i, "hello, world!");
  let c = h.as_c_bytes();
  assert_eq!(c.len(), 14);
  assert_eq!(c[13], 0);
  assert_eq!(&c[..13], b"hello, world!");
}

#[test]
fn empty_string() {
  let mut i = Interner::new();
  let h = intern(&mut i, "");
  let h2 = intern(&mut i, "");
  assert_eq!(h, h2);
  assert_eq!(h.len(), 0);
  assert_eq!(h.as_str(), "");
  assert_eq!(h.as_c_bytes(), &[0u8]);
  assert_eq!(h.wyhash(), ::wyhash::wyhash(b"", WYHASH_SEED));
}

#[test]
fn get_before_and_after_intern() {
  let mut i = Interner::new();
  assert!(get_interned(&i, "pear").is_none());
  let h = intern(&mut i, "pear");
  assert_eq!(get_interned(&i, "pear"), Some(h));
  assert!(get_interned(&i, "plum").is_none());
  let _ = intern(&mut i, "plum");
  assert_eq!(get_interned(&i, "pear"), Some(h));
}

#[test]
fn distinct_strings_distinct_handles() {
  let mut i = Interner::new();
  let a = intern(&mut i, "a");
  let b = intern(&mut i, "b");
  let ab = intern(&mut i, "ab");
  assert_ne!(a, b);
  assert_ne!(a, ab);
  assert_ne!(b, ab);
  assert!(!a.same(&b));
  assert!(a.same(&intern(&mut i, "a")));
  assert_eq!(ab.as_str(), "ab");
}

#[test]
fn collect_holds_every_handle() {
  let mut i = Interner::new();
  assert!(collect_interned_strings(&i).is_empty());
  let mut made = Vec::new();
  for n in 0..100 {
    made.push(intern(&mut i, &format!("{n}")));
  }
  let _ = intern(&mut i, "7");
  let all = collect_interned_strings(&i);
  assert_eq!(all.len(), 100);
  for h in &made {
    assert!(all.contains(h));
  }
}

#[test]
fn handles_keep_their_text_across_pages() {
  let mut i = Interner::new();
  let first = intern(&mut i, "first");
  let mut later = Vec::new();
  for n in 0..2000 {
    later.push(intern(&mut i, &format!("string number {n}")));
  }
  assert_eq!(first.as_str(), "first");
  assert_eq!(first.wyhash(), ::wyhash::wyhash(b"first", WYHASH_SEED));
  for (n, h) in later.iter().enumerate() {
    assert_eq!(h.as_str(), format!("string number {n}"));
    assert_eq!(*h.as_c_bytes().last().unwrap(), 0);
  }
}

#[test]
fn page_capacity_rounds_up() {
  assert_eq!(Page::with_min_capacity(0).mem.len(), 0);
  assert_eq!(Page::with_min_capacity(1).mem.len(), 1024);
  assert_eq!(Page::with_min_capacity(1024).mem.len(), 1024);
  assert_eq!(Page::with_min_capacity(1025).mem.len(), 2048);
  assert!(Page::with_min_capacity(3000).mem.iter().all(|b| *b == 0));
}

#[test]
fn page_growth_doubles() {
  assert_eq!(Page::following(0, 22).mem.len(), 1024);
  assert_eq!(Page::following(1024, 22).mem.len(), 2048);
  assert_eq!(Page::following(1024, 4009).mem.len(), 4096);
  assert_eq!(Page::following(1024, 7786).mem.len(), 8192);
  assert_eq!(Page::following(4096, 7786).mem.len(), 8192);
}

#[test]
fn try_intern_agrees_with_intern() {
  let mut i = Interner::new();
  let a = i.try_intern("alpha").unwrap();
  let b = intern(&mut i, "alpha");
  assert_eq!(a, b);
  assert_eq!(i.try_intern("beta").unwrap().as_str(), "beta");
  assert!(sinter::interner::MAX_STR_LEN > 1 << 20);
}

#[test]
fn handles_order_by_text() {
  let mut i = Interner::new();
  let b = intern(&mut i, "banana");
  let a = intern(&mut i, "apple");
  let c = intern(&mut i, "cherry");
  let mut v = vec![c, a, b];
  v.sort();
  assert_eq!(v, vec![a, b, c]);
  assert!(a < b);
}
