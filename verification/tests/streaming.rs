use wry::{respond, HttpResponse, HttpVersion, PlatformAgnosticStreamHandle, ResponseHead, StreamHandle, StreamTrace};

#[derive(Debug, PartialEq)]
enum Event {
    Head(u16),
    Data(Vec<u8>),
    Finish,
    Fail(String),
}

/// A platform task that records what it is sent and refuses data once a
/// given number of chunks arrived.
struct Recorder {
    events: Vec<Event>,
    refuse_after_chunks: usize,
}

impl Recorder {
    fn new(refuse_after_chunks: usize) -> Self {
        Recorder { events: Vec::new(), refuse_after_chunks }
    }
}

impl PlatformAgnosticStreamHandle for Recorder {
    type Error = &'static str;

    fn trace(&self) -> StreamTrace<Self::Error> {
        unreachable!("only the verifier reads the trace")
    }

    fn send_response(&mut self, response: ResponseHead) -> Result<(), Self::Error> {
        self.events.push(Event::Head(response.status));
        Ok(())
    }

    fn send_data(&mut self, data: Vec<u8>) -> Result<(), Self::Error> {
        let chunks = self.events.iter().filter(|e| matches!(e, Event::Data(_))).count();
        if chunks >= self.refuse_after_chunks {
            return Err("refused");
        }
        self.events.push(Event::Data(data));
        Ok(())
    }

    fn finish(&mut self) -> Result<(), Self::Error> {
        self.events.push(Event::Finish);
        Ok(())
    }

    fn fail(&mut self, error_message: String) -> Result<(), Self::Error> {
        self.events.push(Event::Fail(error_message));
        Ok(())
    }
}

/// A handle borrowing a recorder, so that the test can read what was sent
/// after the stream consumed its handle.
struct Borrowed<'a>(&'a mut Recorder);

impl<'a> PlatformAgnosticStreamHandle for Borrowed<'a> {
    type Error = &'static str;

    fn trace(&self) -> StreamTrace<Self::Error> {
        unreachable!("only the verifier reads the trace")
    }

    fn send_response(&mut self, response: ResponseHead) -> Result<(), Self::Error> {
        self.0.send_response(response)
    }

    fn send_data(&mut self, data: Vec<u8>) -> Result<(), Self::Error> {
        self.0.send_data(data)
    }

    fn finish(&mut self) -> Result<(), Self::Error> {
        self.0.finish()
    }

    fn fail(&mut self, error_message: String) -> Result<(), Self::Error> {
        self.0.fail(error_message)
    }
}

fn head(status: u16) -> ResponseHead {
    ResponseHead { status, version: HttpVersion::Http11, headers: vec![] }
}

#[test]
fn stream_sends_head_chunks_and_finish_in_order() {
    let mut rec = Recorder::new(usize::MAX);
    let stream = StreamHandle::new(Borrowed(&mut rec), head(200)).unwrap();
    let stream = stream.send_chunk(vec![1, 2]).unwrap();
    let stream = stream.send_chunk(vec![3]).unwrap();
    stream.finish().unwrap();
    assert_eq!(
        rec.events,
        vec![Event::Head(200), Event::Data(vec![1, 2]), Event::Data(vec![3]), Event::Finish]
    );
}

#[test]
fn stream_fail_passes_message() {
    let mut rec = Recorder::new(usize::MAX);
    let stream = StreamHandle::new(Borrowed(&mut rec), head(500)).unwrap();
    stream.fail("boom".to_string()).unwrap();
    assert_eq!(rec.events, vec![Event::Head(500), Event::Fail("boom".to_string())]);
}

#[test]
fn stream_reports_refused_chunk() {
    let mut rec = Recorder::new(1);
    let stream = StreamHandle::new(Borrowed(&mut rec), head(200)).unwrap();
    let stream = stream.send_chunk(vec![1]).unwrap();
    assert_eq!(stream.send_chunk(vec![2]).err(), Some("refused"));
    assert_eq!(rec.events, vec![Event::Head(200), Event::Data(vec![1])]);
}

#[test]
fn respond_sends_head_body_finish() {
    let mut rec = Recorder::new(usize::MAX);
    let response = HttpResponse { head: head(201), body: vec![7, 8, 9] };
    assert_eq!(respond(&mut rec, response), Ok(()));
    assert_eq!(rec.events, vec![Event::Head(201), Event::Data(vec![7, 8, 9]), Event::Finish]);
}

#[test]
fn respond_stops_at_first_refusal() {
    let mut rec = Recorder::new(0);
    let response = HttpResponse { head: head(200), body: vec![1] };
    assert_eq!(respond(&mut rec, response), Err("refused"));
    assert_eq!(rec.events, vec![Event::Head(200)]);
}
