use vstd::prelude::*;
use crate::batch::{batch_views, batches, chunks, BATCH_SIZE};
use crate::schema::{
    extracted_texts, full_texts, requests_for, string_views, ExtractedText, Request, Response,
};
use crate::vision::{prepare_request_body, response_to_output};

verus! {

/// Why a run cannot start.
#[derive(Debug, Clone, Copy, PartialEq, Eq)]
pub enum RunError {
    /// The directory held no supported image.
    NoImages,
}

/// What came back from the service for the last request.
pub enum Reply {
    /// The body parsed as a response.
    Parsed(Response),
    /// The body did not parse; it is handed back as it was received.
    Unparsed(String),
}

/// What the caller does next.
pub enum Step {
    /// Send this request and hand back the reply.
    Submit(Request),
    /// Keep this raw body in the log, and stop.
    WriteLog(String),
    /// Every batch has been answered; the results are complete.
    Done,
}

/// A run over the encoded images of one directory: batches go out one after
/// another, and the text of each answered image is kept in submission order.
pub struct Session {
    pub batches: Vec<Vec<String>>,
    /// The batch that is waiting for its reply.
    pub next: usize,
    pub collected: Vec<ExtractedText>,
    pub finished: bool,
}

impl Session {
    pub open spec fn wf(&self) -> bool {
        &&& self.next <= self.batches@.len()
        &&& !self.finished ==> self.next < self.batches@.len()
    }

    /// Starts a run over `encoded`, cut into batches of `BATCH_SIZE`; a run
    /// with no image at all is refused before anything is sent.
    pub fn new(encoded: &Vec<String>) -> (r: Result<Session, RunError>)
        ensures
            encoded@.len() == 0 <==> r is Err,
            r is Err ==> r->Err_0 == RunError::NoImages,
            r matches Ok(s) ==> {
                &&& s.wf()
                &&& batch_views(s.batches@) == chunks(string_views(encoded@), BATCH_SIZE as nat)
                &&& s.next == 0
                &&& s.collected@.len() == 0
                &&& !s.finished
            },
    {
        if encoded.len() == 0 {
            return Err(RunError::NoImages);
        }
        let b = batches(encoded, BATCH_SIZE);
        proof {
            let c = chunks(string_views(encoded@), BATCH_SIZE as nat);
            assert(c.len() > 0);
            assert(batch_views(b@).len() == b@.len());
        }
        Ok(Session { batches: b, next: 0, collected: Vec::new(), finished: false })
    }

    /// The request for the batch that is waiting.
    pub fn current_request(&self) -> (r: Request)
        requires
            self.wf(),
            !self.finished,
        ensures
            requests_for(r, batch_views(self.batches@)[self.next as int]),
    {
        prepare_request_body(&self.batches[self.next])
    }

    /// Takes the reply to the waiting batch. A parsed reply adds the full text
    /// of each of its records to the results and moves to the next batch, or
    /// ends the run after the last one; an unparsed reply ends the run and
    /// hands its body back for the log.
    pub fn on_reply(&mut self, reply: Reply) -> (step: Step)
        requires
            old(self).wf(),
            !old(self).finished,
        ensures
            final(self).wf(),
            final(self).batches == old(self).batches,
            match reply {
                Reply::Parsed(resp) => {
                    &&& extracted_texts(final(self).collected@) == extracted_texts(
                        old(self).collected@,
                    ) + full_texts(resp.responses@)
                    &&& final(self).next == old(self).next + 1
                    &&& final(self).finished == (final(self).next == old(self).batches@.len())
                    &&& match step {
                        Step::Submit(req) => !final(self).finished && requests_for(
                            req,
                            batch_views(old(self).batches@)[final(self).next as int],
                        ),
                        Step::Done => final(self).finished,
                        Step::WriteLog(_) => false,
                    }
                },
                Reply::Unparsed(body) => {
                    &&& final(self).collected@ == old(self).collected@
                    &&& final(self).next == old(self).next
                    &&& final(self).finished
                    &&& step matches Step::WriteLog(logged) && logged@ == body@
                },
            },
    {
        match reply {
            Reply::Parsed(resp) => {
                let texts = response_to_output(&resp);
                let mut i: usize = 0;
                let ghost start = self.collected@;
                while i < texts.len()
                    invariant
                        i <= texts@.len(),
                        extracted_texts(texts@) == full_texts(resp.responses@),
                        extracted_texts(self.collected@) =~= extracted_texts(start)
                            + extracted_texts(texts@.take(i as int)),
                        self.batches == old(self).batches,
                        self.next == old(self).next,
                        self.next < self.batches@.len(),
                    decreases texts@.len() - i,
                {
                    let text = texts[i].text.clone();
                    let ghost before = self.collected@;
                    self.collected.push(ExtractedText { text });
                    assert(extracted_texts(self.collected@) =~= extracted_texts(before).push(
                        texts@[i as int].text@,
                    ));
                    i += 1;
                    assert(extracted_texts(texts@.take(i as int)) =~= extracted_texts(
                        texts@.take(i - 1),
                    ).push(texts@[i - 1].text@));
                }
                assert(texts@.take(i as int) =~= texts@);
                let count = self.batches.len();
                self.next = self.next + 1;
                if self.next < count {
                    self.finished = false;
                    Step::Submit(prepare_request_body(&self.batches[self.next]))
                } else {
                    self.finished = true;
                    Step::Done
                }
            },
            Reply::Unparsed(body) => {
                self.finished = true;
                Step::WriteLog(body)
            },
        }
    }
}

} // verus!
