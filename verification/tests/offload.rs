use sfo_io::blocking::{ReadBlocking, WriteBlocking};
use sfo_io::buf::{Buf, ReadAttempt, DEFAULT_MAX_BUF_SIZE};
use sfo_io::offload::{ReadStep, SideStep, WriteStep};
use sfo_io::poll::Poll;
use sfo_io::simple_async_io::{SimpleAsyncReadHolder, SimpleAsyncWriteHolder};
use std::collections::VecDeque;
use std::io::{Error, ErrorKind, IoSlice};
use tokio::io::ReadBuf;

/// A source that gives what it was told to, one result after the other.
struct Source {
    results: VecDeque<Result<Vec<u8>, ErrorKind>>,
}

impl Source {
    fn new(results: Vec<Result<Vec<u8>, ErrorKind>>) -> Source {
        Source { results: results.into_iter().collect() }
    }

    fn read(&mut self, target: &mut [u8]) -> Result<usize, Error> {
        match self.results.pop_front() {
            Some(Ok(bytes)) => {
                let n = bytes.len().min(target.len());
                target[..n].copy_from_slice(&bytes[..n]);
                Ok(n)
            }
            Some(Err(kind)) => Err(Error::from(kind)),
            None => Ok(0),
        }
    }
}

/// Does the work of a read.
fn run_read(buf: &mut Buf, source: &mut Source) -> Result<usize, Error> {
    loop {
        let attempt = match source.read(buf.read_target()) {
            Ok(n) => ReadAttempt::Done(n),
            Err(e) if e.kind() == ErrorKind::Interrupted => ReadAttempt::Interrupted,
            Err(e) => ReadAttempt::Failed(e),
        };
        if let Some(result) = buf.end_read_from(attempt) {
            return result;
        }
    }
}

fn poll_read(reader: &mut ReadBlocking<Source>, dst: &mut ReadBuf<'_>) -> Result<(), Error> {
    match reader.poll_read(dst) {
        ReadStep::Ready => Ok(()),
        ReadStep::Spawn(mut job) => {
            job.begin();
            let result = run_read(&mut job.buf, &mut job.inner);
            reader.read_done(result, job.buf, job.inner, dst)
        }
        ReadStep::Wait => panic!("no job is under way"),
    }
}

#[test]
fn buffers_hand_out_what_they_take_in() {
    let mut buf = Buf::with_capacity(0);
    assert!(buf.is_empty());
    assert_eq!(buf.copy_from(&[1, 2, 3, 4, 5], 4), 4);
    assert_eq!(buf.len(), 4);
    assert_eq!(buf.bytes(), &[1, 2, 3, 4]);

    let mut bytes = [0u8; 3];
    let mut dst = ReadBuf::new(&mut bytes);
    dst.put_slice(&[9]);
    assert_eq!(buf.copy_to(&mut dst), 2);
    assert_eq!(dst.filled(), &[9, 1, 2]);
    assert_eq!(buf.bytes(), &[3, 4]);
    assert_eq!(buf.copy_to(&mut dst), 0);

    let mut bytes = [0u8; 9];
    let mut dst = ReadBuf::new(&mut bytes);
    assert_eq!(buf.copy_to(&mut dst), 2);
    assert_eq!(dst.filled(), &[3, 4]);
    assert!(buf.is_empty());
    assert_eq!(buf.copy_from(&[7], 100), 1);
    assert_eq!(buf.bytes(), &[7]);
}

#[test]
fn buffers_take_from_several_slices() {
    let mut buf = Buf::with_capacity(8);
    let slices = [
        IoSlice::new(&[1, 2]),
        IoSlice::new(&[]),
        IoSlice::new(&[3, 4, 5]),
        IoSlice::new(&[6]),
    ];
    let slices: Vec<&[u8]> = slices.iter().map(|slice| &slice[..]).collect();
    assert_eq!(buf.copy_from_bufs(&slices, 4), 4);
    assert_eq!(buf.bytes(), &[1, 2, 3, 4]);
    assert_eq!(buf.discard_read(), -4);
    assert_eq!(buf.copy_from_bufs(&slices, 100), 6);
    assert_eq!(buf.bytes(), &[1, 2, 3, 4, 5, 6]);
    assert_eq!(buf.discard_read(), -6);
    assert_eq!(buf.copy_from_bufs(&slices, 0), 0);
    assert_eq!(buf.copy_from_bufs(&[], 5), 0);
    assert_eq!(buf.discard_read(), 0);
    assert!(buf.is_empty());
}

#[test]
fn reads_into_buffers_are_repeated_when_interrupted() {
    let mut buf = Buf::with_capacity(0);
    buf.begin_read_from(4);
    assert_eq!(buf.read_target().len(), 4);
    let mut source = Source::new(vec![
        Err(ErrorKind::Interrupted),
        Err(ErrorKind::Interrupted),
        Ok(vec![5, 6]),
    ]);
    assert_eq!(run_read(&mut buf, &mut source).unwrap(), 2);
    assert_eq!(buf.bytes(), &[5, 6]);
    assert_eq!(buf.discard_read(), -2);

    buf.begin_read_from(4);
    let mut source = Source::new(vec![Err(ErrorKind::Interrupted), Err(ErrorKind::BrokenPipe)]);
    assert_eq!(run_read(&mut buf, &mut source).unwrap_err().kind(), ErrorKind::BrokenPipe);
    assert!(buf.is_empty());
}

#[test]
fn writes_empty_the_buffer_whatever_comes_of_them() {
    let mut buf = Buf::with_capacity(0);
    buf.copy_from(&[1, 2], 10);
    assert_eq!(buf.write_to(Ok::<u8, ()>(3)), Ok(3));
    assert!(buf.is_empty());
    buf.copy_from(&[1, 2], 10);
    assert_eq!(buf.write_to(Err::<u8, &str>("gone")), Err("gone"));
    assert!(buf.is_empty());
}

#[test]
fn blocking_reads_arrive_in_order() {
    let source = Source::new(vec![Ok(vec![1, 2, 3]), Ok(vec![4, 5]), Err(ErrorKind::BrokenPipe)]);
    let mut reader = ReadBlocking::new(source);
    let mut bytes = [0u8; 4];
    let mut dst = ReadBuf::new(&mut bytes);
    poll_read(&mut reader, &mut dst).unwrap();
    assert_eq!(dst.filled(), &[1, 2, 3]);
    // There is room for one more.
    poll_read(&mut reader, &mut dst).unwrap();
    assert_eq!(dst.filled(), &[1, 2, 3, 4]);
    let mut bytes = [0u8; 4];
    let mut dst = ReadBuf::new(&mut bytes);
    assert_eq!(poll_read(&mut reader, &mut dst).unwrap_err().kind(), ErrorKind::BrokenPipe);
    assert!(dst.filled().is_empty());
    poll_read(&mut reader, &mut dst).unwrap();
    assert!(dst.filled().is_empty());
}

#[test]
fn what_does_not_fit_is_held_and_handed_over_first() {
    let mut reader = ReadBlocking::new(Source::new(vec![]));
    let mut bytes = [0u8; 2];
    let mut dst = ReadBuf::new(&mut bytes);
    let mut job = match reader.poll_read(&mut dst) {
        ReadStep::Spawn(job) => job,
        _ => panic!("expected a job"),
    };
    assert_eq!(job.max_buf_size, 2);
    assert!(matches!(reader.poll_read(&mut dst), ReadStep::Wait));
    // By the time the job is done, there is less room.
    dst.put_slice(&[9]);
    job.buf.copy_from(&[1, 2], 10);
    let result: Result<usize, ()> = Ok(2);
    assert_eq!(reader.read_done(result, job.buf, job.inner, &mut dst), Ok(()));
    assert_eq!(dst.filled(), &[9, 1]);
    let mut bytes = [0u8; 2];
    let mut dst = ReadBuf::new(&mut bytes);
    assert!(matches!(reader.poll_read(&mut dst), ReadStep::Ready));
    assert_eq!(dst.filled(), &[2]);
}

#[test]
fn jobs_are_limited_in_size() {
    let mut reader = ReadBlocking::new(Source::new(vec![]));
    let mut bytes = vec![0u8; DEFAULT_MAX_BUF_SIZE + 1];
    let mut dst = ReadBuf::new(&mut bytes);
    match reader.poll_read(&mut dst) {
        ReadStep::Spawn(job) => assert_eq!(job.max_buf_size, 2 * 1024 * 1024),
        _ => panic!("expected a job"),
    }
    let mut writer = WriteBlocking::new(0u8);
    match writer.poll_write(&bytes) {
        WriteStep::Spawn(job) => {
            assert_eq!(job.buf.len(), 2 * 1024 * 1024);
            let (result, buf, inner) = job.wrote_all(Ok::<(), ()>(()));
            assert_eq!(writer.write_done(result, buf, inner), Ok(2 * 1024 * 1024));
        }
        WriteStep::Wait => panic!("expected a job"),
    }
}

#[test]
fn blocking_writes_report_what_was_taken() {
    let mut writer = WriteBlocking::new(Vec::<u8>::new());
    let mut job = match writer.poll_write(&[1, 2, 3]) {
        WriteStep::Spawn(job) => job,
        WriteStep::Wait => panic!("expected a job"),
    };
    assert!(matches!(writer.poll_write(&[1, 2, 3]), WriteStep::Wait));
    job.inner.extend_from_slice(job.buf.bytes());
    let (result, buf, inner) = job.wrote_all(Ok::<(), ()>(()));
    assert_eq!(writer.write_done(result, buf, inner), Ok(3));

    match writer.poll_write(&[4]) {
        WriteStep::Spawn(job) => {
            let (result, buf, inner) = job.wrote_all(Err("gone"));
            assert_eq!(writer.write_done(result, buf, inner), Err("gone"));
        }
        WriteStep::Wait => panic!("expected a job"),
    }
    match writer.poll_flush() {
        SideStep::Spawn(inner) => {
            assert_eq!(inner, vec![1, 2, 3]);
            assert!(matches!(writer.poll_flush(), SideStep::Wait));
            assert_eq!(writer.flush_done(Ok::<(), ()>(()), inner), Ok(()));
        }
        SideStep::Wait => panic!("expected a job"),
    }
    let shut: Poll<Result<(), ()>> = writer.poll_shutdown();
    assert!(matches!(shut, Poll::Ready(Ok(()))));
    assert!(writer.offload.inner.is_some());
}

#[test]
fn test_simple_async_io() {
    let mut write = SimpleAsyncWriteHolder::new(Vec::<u8>::new());
    let data = "tttt".to_string();
    let mut left = data.as_bytes();
    while !left.is_empty() {
        let mut job = match write.poll_write(left) {
            WriteStep::Spawn(job) => job,
            WriteStep::Wait => panic!("no write is under way"),
        };
        assert!(write.with_lock_write().is_none());
        job.inner.extend_from_slice(job.buf.bytes());
        let n = job.buf.len();
        let (result, buf, inner) = job.wrote(Ok::<usize, ()>(n));
        left = &left[write.write_done(result, buf, inner).unwrap()..];
    }
    match write.poll_flush() {
        SideStep::Spawn(inner) => write.flush_done(Ok::<(), ()>(()), inner).unwrap(),
        SideStep::Wait => panic!("no flush is under way"),
    }
    match write.poll_shutdown() {
        SideStep::Spawn(inner) => {
            assert!(matches!(write.poll_shutdown(), SideStep::Wait));
            write.shutdown_done(Ok::<(), ()>(()), inner).unwrap()
        }
        SideStep::Wait => panic!("no shutdown is under way"),
    }
    let written = write.into_write().unwrap();

    let mut read = SimpleAsyncReadHolder::new(written);
    let mut buf = [0u8; 4];
    let mut dst = ReadBuf::new(&mut buf);
    match read.poll_read(&mut dst) {
        ReadStep::Spawn(mut job) => {
            job.begin();
            job.buf.read_target().copy_from_slice(&job.inner);
            let result = job.buf.end_read_from(ReadAttempt::<()>::Done(4)).unwrap();
            read.read_done(result, job.buf, job.inner, &mut dst).unwrap();
        }
        _ => panic!("no read is under way"),
    }
    assert_eq!(String::from_utf8_lossy(buf.as_slice()), data);
}

#[test]
fn holders_give_back_what_they_hold() {
    let mut read = SimpleAsyncReadHolder::new(5u8);
    *read.with_lock_read().unwrap() = 6;
    let mut bytes = [0u8; 2];
    let mut dst = ReadBuf::new(&mut bytes);
    assert!(matches!(read.poll_read(&mut dst), ReadStep::Spawn(job) if job.inner == 6));
    assert!(read.with_lock_read().is_none());
    assert!(read.into_read().is_none());

    let mut write = SimpleAsyncWriteHolder::new(5u8);
    *write.with_lock_write().unwrap() = 7;
    assert_eq!(write.into_write(), Some(7));
}

#[test]
fn what_is_delivered_is_a_prefix_of_what_is_read() {
    let mut reader = ReadBlocking::new(Source::new(vec![]));
    let mut delivered: Vec<u8> = Vec::new();
    let mut next = 1;
    for room in [3, 1, 2, 5, 1, 1] {
        let mut bytes = [0u8; 8];
        let mut dst = ReadBuf::new(&mut bytes[..room]);
        match reader.poll_read(&mut dst) {
            ReadStep::Ready => {}
            ReadStep::Spawn(mut job) => {
                // The job was started with more room.
                let read: Vec<u8> = (next..next + 4).collect();
                next += 4;
                job.buf.copy_from(&read, 10);
                let result: Result<usize, ()> = Ok(4);
                assert_eq!(reader.read_done(result, job.buf, job.inner, &mut dst), Ok(()));
            }
            ReadStep::Wait => panic!("no job is under way"),
        }
        delivered.extend_from_slice(dst.filled());
    }
    assert_eq!(delivered, vec![1, 2, 3, 4, 5, 6, 7, 8, 9, 10]);
    assert_eq!(next, 13);
}
