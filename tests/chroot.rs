use zookeeper_client::chroot::{join_path, strip_path, validate_path, OwnedChroot};
use zookeeper_client::error::Error;

#[test]
fn validate_accepts_well_formed_paths() {
    assert_eq!(validate_path("/"), Ok(()));
    assert_eq!(validate_path("/abc"), Ok(()));
    assert_eq!(validate_path("/abc/efg/123"), Ok(()));
    assert_eq!(validate_path("/ünï/çødé"), Ok(()));
}

#[test]
fn validate_rejects_malformed_paths() {
    assert_eq!(validate_path(""), Err(Error::BadArguments));
    assert_eq!(validate_path("abc"), Err(Error::BadArguments));
    assert_eq!(validate_path("/abc/"), Err(Error::BadArguments));
    assert_eq!(validate_path("//abc"), Err(Error::BadArguments));
    assert_eq!(validate_path("/abc//efg"), Err(Error::BadArguments));
    assert_eq!(validate_path("/ab\0c"), Err(Error::BadArguments));
}

#[test]
fn chroot_construction_validates() {
    assert!(OwnedChroot::new("/abc").is_ok());
    assert_eq!(OwnedChroot::new("/abc/").unwrap_err(), Error::BadArguments);
    assert_eq!(OwnedChroot::new("abc").unwrap_err(), Error::BadArguments);
    assert_eq!(OwnedChroot::new("/abc").unwrap().root(), "/abc");
    assert_eq!(OwnedChroot::top().root(), "/");
}

#[test]
fn translate_prefixes_the_root() {
    let chroot = OwnedChroot::new("/abc").unwrap();
    assert_eq!(chroot.translate("/efg").unwrap(), "/abc/efg");
    assert_eq!(chroot.translate("/").unwrap(), "/abc");
    assert_eq!(chroot.translate("efg"), Err(Error::BadArguments));
    let top = OwnedChroot::top();
    assert_eq!(top.translate("/efg").unwrap(), "/efg");
}

#[test]
fn chroot_stripping_of_event_paths() {
    let chrooted = OwnedChroot::new("/abc").unwrap();
    let plain = OwnedChroot::top();
    assert_eq!(chrooted.strip("/abc/efg/123"), "/efg/123");
    assert_eq!(plain.strip("/abc/efg/123"), "/abc/efg/123");
    assert_eq!(chrooted.strip("/abc"), "/");
}

#[test]
fn stripping_leaves_paths_outside_the_root() {
    let chroot = OwnedChroot::new("/a/b").unwrap();
    assert_eq!(chroot.strip("/a"), "/a");
    assert_eq!(chroot.strip("/a/bc"), "/a/bc");
    assert_eq!(chroot.strip("/"), "/");
}

#[test]
fn chroot_round_trip_on_values() {
    let roots = ["/", "/abc", "/a/b"];
    let paths = ["/", "/x", "/x/y/z"];
    for root in roots {
        let chroot = OwnedChroot::new(root).unwrap();
        for path in paths {
            let server = chroot.translate(path).unwrap();
            assert_eq!(chroot.strip(&server), path);
        }
    }
}

#[test]
fn join_and_strip_free_functions() {
    assert_eq!(join_path("/abc", "/efg"), "/abc/efg");
    assert_eq!(join_path("/", "/efg"), "/efg");
    assert_eq!(join_path("/abc", "/"), "/abc");
    assert_eq!(strip_path("/abc", "/abc/efg"), "/efg");
}

#[test]
fn derived_chroot_concatenates() {
    let chroot = OwnedChroot::new("/abc").unwrap();
    let sub = chroot.chroot("/efg").unwrap();
    assert_eq!(sub.root(), "/abc/efg");
    assert_eq!(chroot.chroot("/efg/").unwrap_err(), Error::BadArguments);
    assert_eq!(chroot.duplicate().root(), "/abc");
}
