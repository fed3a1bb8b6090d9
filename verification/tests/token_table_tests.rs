use hetero_storage::params::RepeatIn32;
use hetero_storage::params::U32Size;
use hetero_storage::params::Unique32;
use hetero_storage::params::USize;
use hetero_storage::token_bucket::TokenBucket;
use hetero_storage::Size;
use hetero_storage::UniqueTag;

#[test]
fn create_and_contains() {
    let mut table: TokenBucket<U32Size, Unique32> = TokenBucket::new();
    let b = U32Size::from_usize(0);
    let i = U32Size::from_usize(4);
    let (token, tag) = table.create(b, i);
    assert_eq!(token.to_usize(), 0);
    assert_eq!(table.len(), 1);
    assert!(table.contains(token, tag));

    let slot = table.try_get_token(token).unwrap();
    assert!(slot.tag().equals(&tag));
    let loc = slot.location().unwrap();
    assert_eq!(loc.bucket_index().to_usize(), 0);
    assert_eq!(loc.inbucket_index().to_usize(), 4);
}

#[test]
fn removed_handles_are_recycled_with_new_tags() {
    let mut table: TokenBucket<U32Size, Unique32> = TokenBucket::new();
    let b = U32Size::from_usize(0);
    let (t0, tag0) = table.create(b, U32Size::from_usize(0));
    let (t1, tag1) = table.create(b, U32Size::from_usize(1));
    assert_eq!(t1.to_usize(), 1);

    table.mark_removed(t0);
    assert!(!table.contains(t0, tag0));
    assert!(table.contains(t1, tag1));

    // The newest removed slot is handed out again, under an advanced tag.
    let (t2, tag2) = table.create(b, U32Size::from_usize(2));
    assert_eq!(t2.to_usize(), 0);
    assert!(table.contains(t2, tag2));
    assert!(!table.contains(t2, tag0));
    assert_eq!(table.len(), 2);
}

#[test]
fn free_chain_pops_in_reverse_order() {
    let mut table: TokenBucket<USize, Unique32> = TokenBucket::new();
    let b = USize::from_usize(0);
    let (t0, _) = table.create(b, USize::from_usize(0));
    let (t1, _) = table.create(b, USize::from_usize(1));
    let (t2, _) = table.create(b, USize::from_usize(2));
    table.mark_removed(t0);
    table.mark_removed(t1);
    table.mark_removed(t2);

    let (r2, _) = table.create(b, USize::from_usize(3));
    let (r1, _) = table.create(b, USize::from_usize(4));
    let (r0, _) = table.create(b, USize::from_usize(5));
    assert_eq!(r2.to_usize(), 2);
    assert_eq!(r1.to_usize(), 1);
    assert_eq!(r0.to_usize(), 0);
    assert_eq!(table.len(), 3);
}

#[test]
fn set_inbucket_index_redirects() {
    let mut table: TokenBucket<U32Size, Unique32> = TokenBucket::new();
    let b = U32Size::from_usize(7);
    let (t, _) = table.create(b, U32Size::from_usize(3));
    table.set_inbucket_index(t, U32Size::from_usize(9));
    let slot = table.try_get_token(t).unwrap();
    let loc = slot.location().unwrap();
    assert_eq!(loc.bucket_index().to_usize(), 7);
    assert_eq!(loc.inbucket_index().to_usize(), 9);
}

#[test]
fn reset_tokens_restarts_tags() {
    let mut table: TokenBucket<U32Size, Unique32> = TokenBucket::new();
    let b = U32Size::from_usize(0);
    let (t0, _) = table.create(b, U32Size::from_usize(0));
    table.mark_removed(t0);
    let (t1, tag1) = table.create(b, U32Size::from_usize(1));
    assert_eq!(t1.to_usize(), 0);
    assert_eq!(tag1.current(), 1);

    table.reset_tokens();
    assert!(!table.contains(t1, tag1));
    let fresh = table.try_get_token(t1).unwrap().tag();
    assert_eq!(fresh.current(), 0);
    assert!(table.contains(t1, fresh));
}

#[test]
fn clear_and_shrink_to_fit() {
    let mut table: TokenBucket<U32Size, Unique32> = TokenBucket::new();
    let b = U32Size::from_usize(0);
    let (t0, tag0) = table.create(b, U32Size::from_usize(0));
    table.shrink_to_fit();
    assert!(table.contains(t0, tag0));
    assert_eq!(table.len(), 1);

    table.clear();
    assert_eq!(table.len(), 0);
    assert!(!table.contains(t0, tag0));
    assert!(table.try_get_token(t0).is_none());
}

#[test]
fn unique_tag_markers() {
    let mut tag = Unique32::start();
    assert_eq!(tag.current(), 0);
    assert!(!tag.is_removed());
    assert!(!tag.is_locked());
    assert_eq!(tag.last(), 0x7fff_ffff);

    tag = tag.next();
    assert_eq!(tag.current(), 1);

    tag.set_removed(true);
    assert!(tag.is_removed());
    tag.set_removed(false);
    assert!(!tag.is_removed());
    assert_eq!(tag.current(), 1);

    tag.mark_locked();
    assert!(tag.is_locked());
    assert!(tag.is_removed());
}

#[test]
fn repeat_in_tag_never_locks() {
    let mut tag = RepeatIn32::start();
    tag.mark_locked();
    assert!(!tag.is_locked());
    let next = tag.next();
    assert_eq!(next.current(), 1);
}

#[test]
fn size_round_trip() {
    let a = U32Size::from_usize(12345);
    assert_eq!(a.to_usize(), 12345);
    assert_eq!(U32Size::max(), u32::MAX as usize);
    let b = USize::from_usize(98765);
    assert_eq!(b.to_usize(), 98765);
    assert!(a.equals(&U32Size::from_usize(12345)));
    assert!(!a.equals(&U32Size::from_usize(1)));
}
