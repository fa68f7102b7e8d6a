use pet::framing::read_frame;
use pet::server::frame_ends_input;
use std::io::{self, BufRead, Read};
use std::sync::mpsc;

/// Reads frames and hands each result on, stopping after the first result that
/// ends input or when nobody listens any more.
fn read_input(mut reader: impl BufRead, sender: mpsc::SyncSender<io::Result<Option<Vec<u8>>>>) {
    loop {
        let frame = read_frame(&mut reader);
        let terminal = frame_ends_input(&frame);
        if sender.send(frame).is_err() || terminal {
            return;
        }
    }
}

#[test]
fn input_reader_reports_terminal_error_once() {
    struct FailedReader;
    impl Read for FailedReader {
        fn read(&mut self, _: &mut [u8]) -> io::Result<usize> {
            Err(io::Error::new(
                io::ErrorKind::PermissionDenied,
                "injected read failure",
            ))
        }
    }
    impl BufRead for FailedReader {
        fn fill_buf(&mut self) -> io::Result<&[u8]> {
            Err(io::Error::new(
                io::ErrorKind::PermissionDenied,
                "injected read failure",
            ))
        }
        fn consume(&mut self, _: usize) {}
    }
    let (sender, receiver) = mpsc::sync_channel(1);
    read_input(FailedReader, sender);
    assert_eq!(
        receiver.recv().unwrap().unwrap_err().kind(),
        io::ErrorKind::PermissionDenied
    );
    assert!(matches!(
        receiver.try_recv(),
        Err(mpsc::TryRecvError::Disconnected)
    ));
    let (sender, receiver) = mpsc::sync_channel(1);
    read_input(io::Cursor::new(b""), sender);
    assert!(receiver.recv().unwrap().unwrap().is_none());
    assert!(matches!(
        receiver.try_recv(),
        Err(mpsc::TryRecvError::Disconnected)
    ));
}

#[test]
fn input_reader_hands_on_every_frame_before_the_end() {
    let bytes = b"Content-Length: 2\r\n\r\n{}Content-Length: 4\n\n[12]".to_vec();
    let (sender, receiver) = mpsc::sync_channel(4);
    read_input(io::Cursor::new(bytes), sender);
    assert_eq!(receiver.recv().unwrap().unwrap(), Some(b"{}".to_vec()));
    assert_eq!(receiver.recv().unwrap().unwrap(), Some(b"[12]".to_vec()));
    assert!(receiver.recv().unwrap().unwrap().is_none());
    assert!(matches!(
        receiver.try_recv(),
        Err(mpsc::TryRecvError::Disconnected)
    ));
}
