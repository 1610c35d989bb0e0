use hound::{SampleFormat, WavSpec, WavWriter};
use std::io::Cursor;
use wav_files_denoise::dispatch::{Backend, FailureReason, Order, RemoteRequest, Reply};
use wav_files_denoise::driver::{
    failure_line, skip_line, summary_line, Action, Counters, Driver, Event, Fatal, Phase,
    FIRST_READ,
};
use wav_files_denoise::paths::Roots;

fn s(text: &str) -> String {
    String::from(text)
}

fn wav(channels: u16, sample_rate: u32, bits_per_sample: u16) -> Vec<u8> {
    let mut bytes: Vec<u8> = Vec::new();
    {
        let spec = WavSpec { channels, sample_rate, bits_per_sample, sample_format: SampleFormat::Int };
        let mut writer = WavWriter::new(Cursor::new(&mut bytes), spec).unwrap();
        for _ in 0..channels {
            writer.write_sample(0i32).unwrap();
        }
    }
    bytes
}

fn valid() -> Vec<u8> {
    wav(1, 16000, 16)
}

/// One entry of a walk: its path, whether it is a regular file, and what
/// reading it gives.
struct Entry {
    path: &'static str,
    is_file: bool,
    bytes: Option<Vec<u8>>,
}

fn file(path: &'static str, bytes: Vec<u8>) -> Entry {
    Entry { path, is_file: true, bytes: Some(bytes) }
}

fn dir(path: &'static str) -> Entry {
    Entry { path, is_file: false, bytes: None }
}

/// What a run did, in the order it did it.
#[derive(Debug, Default)]
struct Report {
    read: Vec<String>,
    lengths: Vec<u64>,
    directories: Vec<String>,
    orders: Vec<Order>,
    diagnostics: Vec<String>,
    log: Vec<&'static str>,
    summary: Option<String>,
    fatal: Option<Fatal>,
    processed: u64,
    skipped: u64,
}

fn next_event(entries: &[Entry], at: &mut usize) -> Event {
    let event = match entries.get(*at) {
        Some(entry) => Event::Entry { path: s(entry.path), is_file: entry.is_file },
        None => Event::EndOfTree,
    };
    *at += 1;
    event
}

/// Feeds a driver the way a caller does: every action is carried out on
/// the entries given, with `backend` standing in for the workers.
fn drive(
    mut driver: Driver,
    entries: &[Entry],
    backend: &mut dyn FnMut(&Order) -> Option<Reply>,
) -> Report {
    let mut report = Report::default();
    let mut at = 0;
    let mut event = next_event(entries, &mut at);
    loop {
        event = match driver.step(event) {
            Action::NextEntry { diagnostic } => {
                if let Some(line) = diagnostic {
                    report.diagnostics.push(line);
                }
                next_event(entries, &mut at)
            }
            Action::ReadHeader { path, length } => {
                report.log.push("read");
                report.lengths.push(length);
                let entry = entries.iter().find(|e| e.path == path);
                report.read.push(path);
                match entry.and_then(|e| e.bytes.as_ref()) {
                    Some(bytes) => {
                        let end = bytes.len().min(length as usize);
                        Event::Header { bytes: bytes[..end].to_vec() }
                    }
                    None => Event::Failed,
                }
            }
            Action::CreateDirectory { path } => {
                report.log.push("mkdir");
                report.directories.push(path);
                Event::DirectoryReady
            }
            Action::Dispatch { order } => {
                report.log.push("dispatch");
                let reply = backend(&order);
                report.orders.push(order);
                match reply {
                    Some(reply) => Event::Replied { reply },
                    None => Event::Failed,
                }
            }
            Action::Finish { summary } => {
                report.summary = Some(summary);
                break;
            }
            Action::Abort { fatal } => {
                report.fatal = Some(fatal);
                break;
            }
        };
    }
    let counters = driver.counters();
    report.processed = counters.processed;
    report.skipped = counters.skipped;
    report
}

fn roots() -> Roots {
    Roots::new(s("/in"), s("/out")).unwrap()
}

fn single() -> Driver {
    Driver::new(roots(), Backend::single(Some(s("http://worker/denoise")), None).unwrap())
}

fn local() -> Driver {
    Driver::new(roots(), Backend::local(None, None))
}

/// A worker that answers every request with the output path it was given.
fn obliging(order: &Order) -> Option<Reply> {
    match order {
        Order::Post { request, .. } => {
            Some(Reply::Response { filename_denoised: request.filename_denoised.clone() })
        }
        Order::Spawn { .. } => Some(Reply::Exited { code: Some(0) }),
    }
}

fn output_of(order: &Order) -> String {
    match order {
        Order::Post { request, .. } => request.filename_denoised.clone(),
        Order::Spawn { args, .. } => args.last().unwrap().clone(),
    }
}

#[test]
fn empty_tree_ends_with_zero_counters() {
    let report = drive(single(), &[], &mut obliging);
    assert_eq!(report.summary.unwrap(), "Denoising complete: 0 files processed, 0 skipped.");
    assert!(report.fatal.is_none());
    assert_eq!((report.processed, report.skipped), (0, 0));
    assert!(report.orders.is_empty());
}

#[test]
fn tree_with_only_the_root_directory() {
    let report = drive(single(), &[dir("/in")], &mut obliging);
    assert_eq!(report.summary.unwrap(), "Denoising complete: 0 files processed, 0 skipped.");
    assert_eq!((report.processed, report.skipped), (0, 0));
}

#[test]
fn tree_without_wav_files_ends_with_zero_counters() {
    let entries = [
        dir("/in"),
        file("/in/readme.txt", b"hello".to_vec()),
        file("/in/a.WAV", valid()),
        file("/in/b.mp3", valid()),
        dir("/in/sub"),
        file("/in/sub/wav", valid()),
    ];
    let report = drive(single(), &entries, &mut obliging);
    assert_eq!(report.summary.unwrap(), "Denoising complete: 0 files processed, 0 skipped.");
    assert_eq!((report.processed, report.skipped), (0, 0));
    assert!(report.read.is_empty());
    assert!(report.orders.is_empty());
    assert!(report.diagnostics.is_empty());
}

#[test]
fn a_directory_named_like_a_candidate_is_no_candidate() {
    let entries = [dir("/in"), dir("/in/album.wav"), file("/in/album.wav/1.wav", valid())];
    let report = drive(single(), &entries, &mut obliging);
    assert_eq!(report.read, vec![s("/in/album.wav/1.wav")]);
    assert_eq!(report.directories, vec![s("/out/album.wav")]);
    assert_eq!((report.processed, report.skipped), (1, 0));
}

#[test]
fn one_valid_and_one_stereo_file() {
    let entries = [
        dir("/in"),
        file("/in/a.wav", valid()),
        dir("/in/sub"),
        file("/in/sub/b.wav", wav(2, 16000, 16)),
    ];
    let report = drive(single(), &entries, &mut obliging);
    assert_eq!(
        report.orders,
        vec![Order::Post {
            url: s("http://worker/denoise"),
            request: RemoteRequest {
                filename: s("/in/a.wav"),
                filename_denoised: s("/out/a.wav"),
                model: None,
            },
        }]
    );
    assert_eq!(report.diagnostics, vec![s("Skipping invalid WAV file: /in/sub/b.wav")]);
    assert_eq!(report.summary.unwrap(), "Denoising complete: 1 files processed, 1 skipped.");
    assert_eq!((report.processed, report.skipped), (1, 1));
    assert_eq!(report.directories, vec![s("/out")]);
    assert_eq!(report.read, vec![s("/in/a.wav"), s("/in/sub/b.wav")]);
}

#[test]
fn empty_response_skips_the_file_and_goes_on() {
    let entries = [file("/in/a.wav", valid()), file("/in/b.wav", valid())];
    let mut seen = 0;
    let mut worker = |order: &Order| {
        seen += 1;
        if seen == 1 {
            Some(Reply::Response { filename_denoised: String::new() })
        } else {
            obliging(order)
        }
    };
    let report = drive(single(), &entries, &mut worker);
    assert_eq!(report.orders.len(), 2);
    assert_eq!(report.diagnostics, vec![s("Denoising failed for /in/a.wav")]);
    assert_eq!(report.summary.unwrap(), "Denoising complete: 1 files processed, 1 skipped.");
    assert!(report.fatal.is_none());
}

#[test]
fn pool_of_two_serves_three_files_in_turn() {
    let entries =
        [file("/in/1.wav", valid()), file("/in/2.wav", valid()), file("/in/3.wav", valid())];
    let driver = Driver::new(roots(), Backend::pool(Some(s("A,B")), None).unwrap());
    let report = drive(driver, &entries, &mut obliging);
    let urls: Vec<String> = report
        .orders
        .iter()
        .map(|order| match order {
            Order::Post { url, .. } => url.clone(),
            other => panic!("{:?}", other),
        })
        .collect();
    assert_eq!(urls, vec![s("A"), s("B"), s("A")]);
    assert_eq!(report.summary.unwrap(), "Denoising complete: 3 files processed, 0 skipped.");
}

#[test]
fn pool_moves_on_whatever_the_reply() {
    let entries = [
        file("/in/1.wav", valid()),
        file("/in/2.wav", wav(2, 16000, 16)),
        file("/in/3.wav", valid()),
        file("/in/4.wav", valid()),
    ];
    let driver = Driver::new(roots(), Backend::pool(Some(s("A,B,C")), None).unwrap());
    let mut failing = |_: &Order| Some(Reply::Response { filename_denoised: String::new() });
    let report = drive(driver, &entries, &mut failing);
    let urls: Vec<String> = report
        .orders
        .iter()
        .map(|order| match order {
            Order::Post { url, .. } => url.clone(),
            other => panic!("{:?}", other),
        })
        .collect();
    // A file that is passed over before dispatch takes no turn.
    assert_eq!(urls, vec![s("A"), s("B"), s("C")]);
    assert_eq!((report.processed, report.skipped), (0, 4));
}

#[test]
fn local_run_with_a_model_file() {
    let driver = Driver::new(roots(), Backend::local(None, Some(s("/m.bin"))));
    let report = drive(driver, &[file("/in/x.wav", valid())], &mut obliging);
    assert_eq!(
        report.orders,
        vec![Order::Spawn {
            program: s("nnnoiseless"),
            args: vec![s("--model=/m.bin"), s("/in/x.wav"), s("/out/x.wav")],
        }]
    );
    assert_eq!(report.summary.unwrap(), "Denoising complete: 1 files processed, 0 skipped.");
}

#[test]
fn local_run_whose_denoiser_fails() {
    let mut failing = |_: &Order| Some(Reply::Exited { code: Some(3) });
    let report = drive(local(), &[file("/in/x.wav", valid())], &mut failing);
    assert_eq!(report.summary.unwrap(), "Denoising complete: 0 files processed, 1 skipped.");
    assert!(report.fatal.is_none());
    assert_eq!(report.diagnostics, vec![s("Denoising failed for /in/x.wav: exit code 3")]);
    assert_eq!((report.processed, report.skipped), (0, 1));
}

#[test]
fn local_run_whose_denoiser_is_killed() {
    let mut killed = |_: &Order| Some(Reply::Exited { code: None });
    let report = drive(local(), &[file("/in/x.wav", valid())], &mut killed);
    assert_eq!(report.diagnostics, vec![s("Denoising failed for /in/x.wav")]);
    assert_eq!((report.processed, report.skipped), (0, 1));
}

#[test]
fn unparsable_header_is_fatal() {
    let entries = [
        file("/in/a.wav", valid()),
        file("/in/b.wav", b"RIFFxxxxJUNK".to_vec()),
        file("/in/c.wav", valid()),
    ];
    let report = drive(single(), &entries, &mut obliging);
    assert!(report.summary.is_none());
    match report.fatal.unwrap() {
        Fatal::MalformedHeader { path, cause } => {
            assert_eq!(path, "/in/b.wav");
            assert!(matches!(cause.cause, hound::Error::FormatError(_)));
        }
        other => panic!("{:?}", other),
    }
    assert_eq!(report.orders.len(), 1);
    assert_eq!(report.read, vec![s("/in/a.wav"), s("/in/b.wav")]);
}

#[test]
fn unreadable_file_is_fatal() {
    let entries = [Entry { path: "/in/a.wav", is_file: true, bytes: None }];
    let report = drive(single(), &entries, &mut obliging);
    assert!(report.summary.is_none());
    assert!(matches!(report.fatal.unwrap(), Fatal::Unreadable { path } if path == "/in/a.wav"));
}

#[test]
fn transport_failure_is_fatal() {
    let entries = [file("/in/a.wav", valid()), file("/in/b.wav", valid())];
    let mut unreachable = |_: &Order| None;
    let report = drive(single(), &entries, &mut unreachable);
    assert!(report.summary.is_none());
    assert!(matches!(report.fatal.unwrap(), Fatal::Transport { path } if path == "/in/a.wav"));
    assert_eq!(report.orders.len(), 1);
    assert_eq!((report.processed, report.skipped), (0, 0));
}

#[test]
fn file_outside_the_input_root_is_fatal() {
    let report = drive(single(), &[file("/elsewhere/a.wav", valid())], &mut obliging);
    assert!(matches!(
        report.fatal.unwrap(),
        Fatal::NotUnderRoot { path } if path == "/elsewhere/a.wav"
    ));
    assert!(report.orders.is_empty());
    assert!(report.directories.is_empty());
}

#[test]
fn a_rejected_file_outside_the_root_is_only_skipped() {
    // The format is looked at before the path is mapped.
    let report = drive(single(), &[file("/elsewhere/a.wav", wav(2, 16000, 16))], &mut obliging);
    assert!(report.fatal.is_none());
    assert_eq!((report.processed, report.skipped), (0, 1));
}

#[test]
fn directory_failure_is_fatal() {
    let mut driver = single();
    assert!(matches!(
        driver.step(Event::Entry { path: s("/in/sub/a.wav"), is_file: true }),
        Action::ReadHeader { path, length: 4096 } if path == "/in/sub/a.wav"
    ));
    assert!(matches!(
        driver.step(Event::Header { bytes: valid() }),
        Action::CreateDirectory { path } if path == "/out/sub"
    ));
    assert_eq!(
        *driver.phase(),
        Phase::Preparing { input: s("/in/sub/a.wav"), output: s("/out/sub/a.wav") }
    );
    assert_eq!(FIRST_READ, 4096);
    match driver.step(Event::Failed) {
        Action::Abort { fatal } => {
            assert!(matches!(&fatal, Fatal::Directory { path } if path == "/out/sub/a.wav"));
            assert_eq!(fatal.message(), "Failed to create output directory for: /out/sub/a.wav");
        }
        other => panic!("{:?}", other),
    }
    assert_eq!(*driver.phase(), Phase::Failed);
}

#[test]
fn the_directory_is_made_before_the_order_is_given() {
    let entries = [file("/in/x/a.wav", valid()), file("/in/y/b.wav", valid())];
    let report = drive(local(), &entries, &mut obliging);
    assert_eq!(report.log, vec!["read", "mkdir", "dispatch", "read", "mkdir", "dispatch"]);
    assert_eq!(report.directories, vec![s("/out/x"), s("/out/y")]);
    let outputs: Vec<String> = report.orders.iter().map(output_of).collect();
    assert_eq!(outputs, vec![s("/out/x/a.wav"), s("/out/y/b.wav")]);
}

#[test]
fn every_candidate_is_counted_once() {
    let entries = [
        dir("/in"),
        file("/in/a.wav", valid()),
        file("/in/b.wav", wav(1, 44100, 16)),
        file("/in/c.txt", valid()),
        file("/in/d.wav", valid()),
        dir("/in/e.wav"),
        file("/in/f.wav", wav(1, 16000, 24)),
        file("/in/g.wav", valid()),
    ];
    let mut seen = 0;
    let mut worker = |order: &Order| {
        seen += 1;
        if seen == 2 {
            Some(Reply::Exited { code: Some(1) })
        } else {
            obliging(order)
        }
    };
    let report = drive(local(), &entries, &mut worker);
    assert_eq!((report.processed, report.skipped), (2, 3));
    assert_eq!(report.processed + report.skipped, 5);
    assert_eq!(report.read.len(), 5);
    assert_eq!(report.orders.len(), 3);
    assert_eq!(
        report.diagnostics,
        vec![
            s("Skipping invalid WAV file: /in/b.wav"),
            s("Denoising failed for /in/d.wav: exit code 1"),
            s("Skipping invalid WAV file: /in/f.wav"),
        ]
    );
    assert_eq!(report.summary.unwrap(), "Denoising complete: 2 files processed, 3 skipped.");
}

#[test]
fn no_output_path_is_used_twice() {
    let entries = [
        file("/in/a.wav", valid()),
        file("/in/a/a.wav", valid()),
        file("/in/b/a.wav", valid()),
        file("/in/a/b.wav", valid()),
        file("/in/a.wav.wav", valid()),
    ];
    let report = drive(single(), &entries, &mut obliging);
    let outputs: Vec<String> = report.orders.iter().map(output_of).collect();
    assert_eq!(outputs.len(), 5);
    for i in 0..outputs.len() {
        for j in 0..i {
            assert_ne!(outputs[i], outputs[j]);
        }
    }
}

#[test]
fn the_same_walk_gives_the_same_counters() {
    let entries = [
        file("/in/a.wav", valid()),
        file("/in/b.wav", wav(2, 16000, 16)),
        file("/in/c.wav", valid()),
    ];
    let first = drive(single(), &entries, &mut obliging);
    let second = drive(single(), &entries, &mut obliging);
    assert_eq!((first.processed, first.skipped), (2, 1));
    assert_eq!((second.processed, second.skipped), (first.processed, first.skipped));
    assert_eq!(first.summary, second.summary);
}

#[test]
fn a_file_directly_under_the_root_directory() {
    let driver =
        Driver::new(Roots::new(s("/"), s("/")).unwrap(), Backend::local(Some(s("nn")), None));
    let report = drive(driver, &[file("/a.wav", valid())], &mut obliging);
    assert_eq!(report.directories, vec![s("/")]);
    assert_eq!(
        report.orders,
        vec![Order::Spawn { program: s("nn"), args: vec![s("/a.wav"), s("/a.wav")] }]
    );
}

#[test]
fn events_out_of_turn_end_the_run() {
    let mut driver = single();
    assert!(matches!(
        driver.step(Event::DirectoryReady),
        Action::Abort { fatal: Fatal::OutOfTurn }
    ));
    assert_eq!(*driver.phase(), Phase::Failed);
    assert!(matches!(driver.step(Event::EndOfTree), Action::Abort { fatal: Fatal::OutOfTurn }));

    let mut driver = single();
    driver.step(Event::Entry { path: s("/in/a.wav"), is_file: true });
    assert!(matches!(
        driver.step(Event::Entry { path: s("/in/b.wav"), is_file: true }),
        Action::Abort { fatal: Fatal::OutOfTurn }
    ));

    let mut driver = single();
    driver.step(Event::Entry { path: s("/in/a.wav"), is_file: true });
    driver.step(Event::Header { bytes: valid() });
    driver.step(Event::DirectoryReady);
    assert_eq!(*driver.phase(), Phase::Dispatching { input: s("/in/a.wav") });
    assert!(matches!(driver.step(Event::EndOfTree), Action::Abort { fatal: Fatal::OutOfTurn }));
}

/// A valid file with `padding` bytes of another chunk before its format.
fn padded(padding: u32) -> Vec<u8> {
    let plain = valid();
    let mut bytes = plain[..12].to_vec();
    bytes.extend_from_slice(b"JUNK");
    bytes.extend_from_slice(&padding.to_le_bytes());
    bytes.extend(std::iter::repeat(0u8).take(padding as usize));
    bytes.extend_from_slice(&plain[12..]);
    bytes
}

#[test]
fn only_the_beginning_of_a_file_is_asked_for() {
    let mut long = valid();
    long.extend(std::iter::repeat(0u8).take(100_000));
    let report = drive(single(), &[file("/in/a.wav", long)], &mut obliging);
    assert_eq!(report.lengths, vec![4096]);
    assert_eq!((report.processed, report.skipped), (1, 0));
}

#[test]
fn more_is_asked_for_while_the_header_goes_on() {
    let report = drive(single(), &[file("/in/a.wav", padded(20_000))], &mut obliging);
    assert_eq!(report.lengths, vec![4096, 8192, 16384, 32768]);
    assert_eq!(report.read.len(), 4);
    assert_eq!(report.orders.len(), 1);
    assert_eq!((report.processed, report.skipped), (1, 0));
    assert_eq!(report.summary.unwrap(), "Denoising complete: 1 files processed, 0 skipped.");
}

#[test]
fn a_long_file_without_a_header_is_fatal_once_it_ends() {
    let noise: Vec<u8> = std::iter::repeat(b"RIFF....WAVEJUNK\xff\xff\xff\x00".iter().copied())
        .flatten()
        .take(10_000)
        .collect();
    let report = drive(single(), &[file("/in/a.wav", noise)], &mut obliging);
    assert_eq!(report.lengths, vec![4096, 8192, 16384]);
    assert!(matches!(report.fatal.unwrap(), Fatal::MalformedHeader { path, .. } if path == "/in/a.wav"));
    assert!(report.summary.is_none());
}

#[test]
fn the_last_ask_is_for_everything() {
    let mut driver = single();
    driver.step(Event::Entry { path: s("/in/a.wav"), is_file: true });
    let mut asked = 4096u64;
    // A caller that always hands over too much is asked again, each time
    // for twice as much, and not for ever.
    let mut rounds = 0;
    loop {
        rounds += 1;
        match driver.step(Event::Header { bytes: vec![0u8; 5000] }) {
            Action::ReadHeader { path, length } => {
                assert_eq!(path, "/in/a.wav");
                assert!(length > asked);
                assert!(length == asked.saturating_mul(2));
                asked = length;
            }
            Action::Abort { fatal } => {
                assert!(matches!(fatal, Fatal::MalformedHeader { .. }));
                break;
            }
            other => panic!("{:?}", other),
        }
    }
    assert_eq!(asked, 4096 << 1);
    assert_eq!(rounds, 2);
}

#[test]
fn nothing_follows_the_summary() {
    let mut driver = single();
    assert!(matches!(driver.step(Event::EndOfTree), Action::Finish { .. }));
    assert_eq!(*driver.phase(), Phase::Finished);
    assert!(matches!(
        driver.step(Event::Entry { path: s("/in/a.wav"), is_file: true }),
        Action::Abort { fatal: Fatal::OutOfTurn }
    ));
    assert_eq!(driver.counters(), Counters { processed: 0, skipped: 0 });
}

#[test]
fn lines_are_written_as_agreed() {
    assert_eq!(skip_line("/in/a.wav"), "Skipping invalid WAV file: /in/a.wav");
    assert_eq!(
        failure_line("/in/a.wav", FailureReason::ExitCode(-2)),
        "Denoising failed for /in/a.wav: exit code -2"
    );
    assert_eq!(
        failure_line("/in/a.wav", FailureReason::EmptyResponse),
        "Denoising failed for /in/a.wav"
    );
    assert_eq!(failure_line("/in/a.wav", FailureReason::NoExitCode), "Denoising failed for /in/a.wav");
    assert_eq!(
        summary_line(&Counters { processed: 12, skipped: 0 }),
        "Denoising complete: 12 files processed, 0 skipped."
    );
    assert_eq!(
        summary_line(&Counters { processed: u64::MAX, skipped: 100 }),
        "Denoising complete: 18446744073709551615 files processed, 100 skipped."
    );
}

#[test]
fn fatal_messages_name_the_path() {
    assert_eq!(Fatal::Unreadable { path: s("/in/a.wav") }.message(), "Failed to read WAV file: /in/a.wav");
    assert_eq!(
        Fatal::NotUnderRoot { path: s("/x/a.wav") }.message(),
        "Failed to compute relative path for: /x/a.wav"
    );
    assert_eq!(
        Fatal::Transport { path: s("/in/a.wav") }.message(),
        "Failed to run the denoiser for: /in/a.wav"
    );
    assert_eq!(Fatal::TooManyFiles.message(), "Too many files to count");
    assert_eq!(Fatal::OutOfTurn.message(), "Event out of turn");
    let report = drive(single(), &[file("/in/a.wav", Vec::new())], &mut obliging);
    assert_eq!(report.fatal.unwrap().message(), "Failed to open WAV file: /in/a.wav");
}
