use ipc_bootstrap::Bootstrapper;

#[test]
fn bind_starts_listening_without_channel() {
    let b = Bootstrapper::bind(String::from("/tmp/test.sock"));
    assert_eq!(b.path().as_str(), "/tmp/test.sock");
    assert!(b.needs_accept());
}

#[test]
fn single_accept_across_five_sends() {
    let mut b = Bootstrapper::bind(String::from("/tmp/test2.sock"));
    let mut accepts: u32 = 0;
    for _ in 0..5 {
        if b.needs_accept() {
            // the shell would accept the one peer connection here
            accepts += 1;
            b.cache_channel();
        }
        // the shell would transmit over the cached channel here
    }
    assert_eq!(accepts, 1);
    assert!(!b.needs_accept());
}

#[test]
fn retry_after_failed_accept() {
    let mut b = Bootstrapper::bind(String::from("/tmp/test3.sock"));
    assert!(b.needs_accept());
    // the first accept attempt fails in the shell: nothing is recorded, the
    // endpoint stays in the "listening, no channel" state
    assert!(b.needs_accept());
    assert_eq!(b.path().as_str(), "/tmp/test3.sock");
    // the retried accept succeeds
    b.cache_channel();
    assert!(!b.needs_accept());
    assert_eq!(b.path().as_str(), "/tmp/test3.sock");
}

#[test]
fn generated_endpoint_lives_under_the_given_directory() {
    let b = Bootstrapper::new("/tmp");
    let p = b.path().as_str();
    assert!(p.starts_with("/tmp/.rust-unix-ipc."));
    assert!(p.ends_with(".sock"));
    assert!(b.needs_accept());
}

#[test]
fn two_generated_endpoints_get_distinct_paths() {
    let a = Bootstrapper::new("/tmp");
    let b = Bootstrapper::new("/tmp");
    assert_ne!(a.path().as_str(), b.path().as_str());
}

#[test]
fn two_sends_one_connection_then_cleanup() {
    let mut e = Bootstrapper::bind(String::from("/tmp/ex.sock"));
    assert_eq!(e.path().as_str(), "/tmp/ex.sock");
    let mut delivered: Vec<i32> = Vec::new();
    let mut accepts: u32 = 0;
    for val in [42, 43] {
        if e.needs_accept() {
            // the shell accepts the one peer connection on the first send
            accepts += 1;
            e.cache_channel();
        }
        // the shell writes the value to the cached channel, in call order
        delivered.push(val);
    }
    assert_eq!(accepts, 1);
    assert_eq!(delivered, vec![42, 43]);
    // destruction removes the bound path, whatever state the endpoint is in
    assert_eq!(e.path().as_str(), "/tmp/ex.sock");
}
