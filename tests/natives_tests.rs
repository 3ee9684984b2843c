use nova::natives::{time_unit, TimeUnit};
use nova::object::NovaObject;

fn text(s: &str) -> NovaObject {
    NovaObject::String(s.as_bytes().to_vec())
}

#[test]
fn time_accepts_each_unit() {
    assert_eq!(time_unit(&vec![text("milli")]), Ok(TimeUnit::Milli));
    assert_eq!(time_unit(&vec![text("micro")]), Ok(TimeUnit::Micro));
    assert_eq!(time_unit(&vec![text("sec")]), Ok(TimeUnit::Sec));
    assert_eq!(time_unit(&vec![text("nano")]), Ok(TimeUnit::Nano));
}

#[test]
fn time_rejects_wrong_arguments() {
    assert_eq!(
        time_unit(&vec![]).err().unwrap(),
        b" Incorrect number of arguments for 'time()', 1 needed while 0 provided".to_vec()
    );
    assert_eq!(
        time_unit(&vec![NovaObject::Int64(1)]).err().unwrap(),
        b"Function 'time()' requires a string argument".to_vec()
    );
    assert_eq!(
        time_unit(&vec![text("hours")]).err().unwrap(),
        b"Unknown option: hours".to_vec()
    );
}

#[test]
fn cache_evicts_the_oldest_entry_first() {
    let mut cache = nova::cache::MemoryCache::new(2);
    cache.add_cache(1, 10);
    cache.add_cache(2, 20);
    cache.add_cache(3, 30);
    assert_eq!(cache.get_cache(&1), None);
    assert_eq!(cache.get_cache(&2), Some(20));
    assert_eq!(cache.get_cache(&3), Some(30));
    cache.add_cache(2, 21);
    cache.add_cache(4, 40);
    assert_eq!(cache.get_cache(&3), None);
    assert_eq!(cache.get_cache(&2), Some(21));
    assert_eq!(cache.get_cache(&4), Some(40));
}

#[test]
fn default_cache_holds_sixteen_entries() {
    let mut cache = nova::cache::MemoryCache::default();
    for id in 0..17usize {
        cache.add_cache(id, id * 2);
    }
    assert_eq!(cache.get_cache(&0), None);
    assert_eq!(cache.get_cache(&1), Some(2));
    assert_eq!(cache.get_cache(&16), Some(32));
    assert_eq!(cache.entries.len(), 16);
}
