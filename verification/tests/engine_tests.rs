use yaks::Candidate;
use yaks::Conf;
use yaks::Overrides;
use yaks::Download;
use yaks::Engine;
use yaks::Error;
use yaks::Event;
use yaks::Phase;
use yaks::Prog;
use yaks::Profile;

fn profile() -> Profile {
    Profile {
        platform: String::from("fanbox"),
        user_id: String::from("42"),
        nickname: String::from("nick"),
        username: String::from("uname"),
        post_count: 1,
    }
}

fn cand(name: &str) -> Candidate {
    Candidate { url: format!("https://s1/data/{name}"), dest: String::from(name) }
}

#[test]
fn run_sequence_to_clear() {
    let mut e = Engine::new();
    assert!(matches!(e.on_profile(profile()), Event::Profile(_)));
    let (posts, done) = e.on_scraped(1);
    assert!(matches!(posts, Event::Posts(1)));
    assert!(matches!(done, Event::PostsExhausted));
    let (files, batch) = e.admit_batch(&vec![cand("a.png")], &vec![false]);
    assert_eq!(files.len(), 1);
    let id = files[0].id();
    match batch {
        Event::Files(fs) => assert_eq!(fs.len(), 1),
        _ => panic!("expected a files event"),
    }
    assert!(matches!(e.on_files_exhausted(), Event::FilesExhausted));
    assert!(matches!(e.on_prog(id, Prog::Enqueue), Event::Enqueue(_)));
    assert!(matches!(e.on_prog(id, Prog::Init(10)), Event::Init(_, 10)));
    assert!(matches!(e.on_prog(id, Prog::Chunk(10)), Event::Chunk(_, 10)));
    assert!(matches!(e.on_prog(id, Prog::Fin), Event::Fin(_)));
    assert_eq!(e.in_flight(), 0);
    assert!(matches!(e.on_clear(), Event::Clear));
    assert_eq!(e.phase, Phase::Done);
}

#[test]
fn profile_failure_is_fatal() {
    let mut e = Engine::new();
    let err = e.on_profile_error(String::from("boom"));
    assert!(matches!(err, Error::Profile(_)));
    assert!(err.is_fatal());
    assert_eq!(e.phase, Phase::Failed);
}

#[test]
fn browse_failure_leaves_siblings_alone() {
    // A three-post batch with the middle post failing: its error is
    // reported, and the posts around it still yield their files.
    let mut e = Engine::new();
    e.on_profile(profile());
    e.on_scraped(3);
    let (f1, _) = e.admit_batch(&vec![cand("one.png")], &vec![false]);
    assert_eq!(f1.len(), 1);
    let err = e.on_browse_error(2, String::from("detail fetch failed"));
    assert!(matches!(err, Error::Browse(2, _)));
    assert!(!err.is_fatal());
    let (f3, _) = e.admit_batch(&vec![cand("three.png")], &vec![false]);
    assert_eq!(f3.len(), 1);
    assert_ne!(f1[0].id(), f3[0].id());
    assert_eq!(e.in_flight(), 2);
}

#[test]
fn ids_are_unique_across_batches() {
    let mut e = Engine::new();
    e.on_profile(profile());
    e.on_scraped(2);
    let (a, _) = e.admit_batch(&vec![cand("a.png"), cand("b.png")], &vec![false, false]);
    let (b, _) = e.admit_batch(&vec![cand("c.png")], &vec![false]);
    let mut ids: Vec<u64> = a.iter().chain(b.iter()).map(|f| f.id()).collect();
    let before = ids.len();
    ids.sort();
    ids.dedup();
    assert_eq!(ids.len(), before);
}

#[test]
fn missing_content_length_fails_only_that_file() {
    // One file whose response has no content length fails with a scoped
    // error; a sibling in flight is untouched.
    let mut e = Engine::new();
    e.on_profile(profile());
    e.on_scraped(1);
    let (files, _) = e.admit_batch(&vec![cand("a.png"), cand("b.png")], &vec![false, false]);
    e.on_files_exhausted();
    let mut d0 = Download::new(files[0].clone());
    let mut d1 = Download::new(files[1].clone());
    let err = d0.on_connect(None).unwrap_err();
    match &err {
        Error::Download(id, m) => {
            assert_eq!(*id, files[0].id());
            assert_eq!(m, "content-length is missing");
        },
        _ => panic!("expected a download error"),
    }
    assert!(!err.is_fatal());
    let e0 = e.on_download_error(files[0].id(), err.message());
    assert!(matches!(e0, Error::Download(_, _)));
    assert_eq!(e.in_flight(), 1);
    // the sibling transfer goes on untouched
    assert!(matches!(d1.on_connect(Some(4)), Ok(Prog::Init(4))));
    assert_eq!(d1.on_chunk(3), Prog::Chunk(3));
    assert_eq!(d1.on_chunk(1), Prog::Chunk(4));
    let (target, fin) = d1.on_finished();
    assert_eq!(fin, Prog::Fin);
    assert_eq!(target, "b.png");
    assert!(matches!(e.on_prog(files[1].id(), Prog::Fin), Event::Fin(_)));
    assert_eq!(e.in_flight(), 0);
    assert!(matches!(e.on_clear(), Event::Clear));
}

#[test]
fn download_tracks_cumulative_bytes() {
    let mut e = Engine::new();
    e.on_profile(profile());
    e.on_scraped(1);
    let (files, _) = e.admit_batch(&vec![cand("dir/pic.png")], &vec![false]);
    let mut d = Download::new(files[0].clone());
    assert!(matches!(d.on_connect(Some(100)), Ok(Prog::Init(100))));
    assert_eq!(d.on_chunk(40), Prog::Chunk(40));
    assert_eq!(d.on_chunk(60), Prog::Chunk(100));
    let (target, _) = d.on_finished();
    assert_eq!(target, "dir/pic.png");
    assert_eq!(files[0].file.dest, "dir/pic.png.parts");
    assert_eq!(files[0].file.filename, "pic.png");
}

#[test]
fn settings_precedence() {
    let s = yaks::resolve(
        Overrides { out: None, template: Some(String::from("{post_id}")), jobs: None },
        Conf { out: Some(String::from("/data")), template: Some(String::from("{title}")), jobs: None },
        String::from("/downloads"),
    );
    assert_eq!(s.out, "/data");
    assert_eq!(s.template, "{post_id}");
    assert_eq!(s.jobs, yaks::default_jobs());
    let d = yaks::resolve(
        Overrides { out: None, template: None, jobs: Some(3) },
        Conf { out: None, template: None, jobs: None },
        String::from("/downloads"),
    );
    assert_eq!(d.out, "/downloads");
    assert_eq!(d.template, yaks::default_template());
    assert_eq!(d.jobs, 3);
}

#[test]
fn jitter_stays_in_interval() {
    let rd = yaks::RandomDuration::from_millis(yaks::BROWSE_INTERVAL_MIN_MS, yaks::BROWSE_INTERVAL_MAX_MS);
    for _ in 0..50 {
        let ms = rd.get();
        assert!(yaks::BROWSE_INTERVAL_MIN_MS <= ms && ms < yaks::BROWSE_INTERVAL_MAX_MS);
    }
}
