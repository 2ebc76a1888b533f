use kagi_proxy::kagi::stream::{
    body_records_exec, delta_chunk, frame_stream_body, is_blank, read_records, stop_chunk,
    PollOutcome, PollState, SseLine, SseRecord, StreamEnd, StreamReply, StreamState, StreamStep,
};
use kagi_proxy::error::AppError;
use kagi_proxy::kagi::StreamEvent;

fn content(html: &str) -> SseRecord {
    SseRecord::Event(StreamEvent {
        html_content: Some(html.to_string()),
        text: None,
        is_final: None,
        cursor: None,
    })
}

fn final_event(text: Option<&str>) -> SseRecord {
    SseRecord::Event(StreamEvent {
        html_content: None,
        text: text.map(|s| s.to_string()),
        is_final: Some(true),
        cursor: None,
    })
}

#[test]
fn frames_lines_of_a_body() {
    let lines = frame_stream_body("id: 5\r\ndata: {\"x\":1}\n\nevent: ping\nid: abc\nid: +7");
    assert_eq!(
        lines,
        vec![
            SseLine::Id(Some(5)),
            SseLine::Data("{\"x\":1}".to_string()),
            SseLine::Other,
            SseLine::Other,
            SseLine::Id(None),
            SseLine::Id(Some(7)),
        ]
    );
}

#[test]
fn frames_edge_lines() {
    assert_eq!(frame_stream_body(""), vec![]);
    assert_eq!(frame_stream_body("\n"), vec![SseLine::Other]);
    assert_eq!(
        frame_stream_body("id: 18446744073709551615\nid: 18446744073709551616\ndata:x"),
        vec![SseLine::Id(Some(u64::MAX)), SseLine::Id(None), SseLine::Other]
    );
    // A carriage return is dropped only before a line feed.
    assert_eq!(frame_stream_body("data: a\r"), vec![SseLine::Data("a\r".to_string())]);
}

#[test]
fn blank_bodies() {
    assert!(is_blank(" \n\t "));
    assert!(is_blank(""));
    assert!(!is_blank(" x "));
}

#[test]
fn poll_keeps_longest_text_and_moves_cursor() {
    let records = vec![
        content("<p>Hel</p>"),
        SseRecord::Id(Some(3)),
        SseRecord::Event(StreamEvent {
            html_content: Some("<p>Hello</p>".to_string()),
            text: None,
            is_final: Some(false),
            cursor: Some(9),
        }),
        content("Hi"),
        SseRecord::Id(Some(2)),
        SseRecord::Skip,
    ];
    let out = PollState::start().absorb(&records);
    assert_eq!(
        out,
        PollOutcome::Pending(PollState { cursor: 9, accumulated: "Hello".to_string() })
    );
}

#[test]
fn poll_completes_on_final_event() {
    let out = PollState::start().absorb(&vec![content("Answer"), final_event(Some("other"))]);
    assert_eq!(out, PollOutcome::Complete("Answer".to_string()));
    let out = PollState::start().absorb(&vec![final_event(Some("<i>Done</i>")), content("late")]);
    assert_eq!(out, PollOutcome::Complete("Done".to_string()));
    let out = PollState::start().absorb(&vec![final_event(None)]);
    assert_eq!(out, PollOutcome::Complete(String::new()));
}

#[test]
fn poll_cursor_overflow_stops() {
    let state = PollState { cursor: 10, accumulated: String::new() };
    let out = state.absorb(&vec![SseRecord::Id(Some(u64::MAX)), content("x")]);
    assert_eq!(out, PollOutcome::CursorOverflow);
}

#[test]
fn stream_sends_new_text_then_finishes() {
    let step = StreamState::start().absorb(&vec![
        content("Hel"),
        SseRecord::Id(Some(5)),
        content("Hello"),
        content("Hi"),
        final_event(None),
        content("ignored"),
    ]);
    assert_eq!(step.deltas, vec!["Hel".to_string(), "lo".to_string()]);
    assert_eq!(step.end, StreamEnd::Finished);
    assert_eq!(step.state, StreamState { cursor: 6, previous: "Hello".to_string() });
}

#[test]
fn stream_cuts_by_bytes() {
    let state = StreamState { cursor: 0, previous: "ab".to_string() };
    let step = state.absorb(&vec![content("xyz")]);
    assert_eq!(step.deltas, vec!["z".to_string()]);
    assert_eq!(step.end, StreamEnd::Open);
    let state = StreamState { cursor: 0, previous: "é".to_string() };
    let step = state.absorb(&vec![content("aé"), content("later text")]);
    assert_eq!(step.deltas, Vec::<String>::new());
    assert_eq!(step.end, StreamEnd::Broken);
}

#[test]
fn stream_cursor_from_ids_only() {
    let step = StreamState::start().absorb(&vec![
        SseRecord::Id(Some(4)),
        SseRecord::Id(Some(1)),
        SseRecord::Event(StreamEvent {
            html_content: None,
            text: None,
            is_final: None,
            cursor: Some(100),
        }),
    ]);
    assert_eq!(step.state.cursor, 5);
    let step = StreamState::start().absorb(&vec![SseRecord::Id(Some(u64::MAX))]);
    assert_eq!(step.end, StreamEnd::Broken);
}

#[test]
fn chunks_for_the_stream() {
    let c = delta_chunk("gpt-4o", "hi");
    assert_eq!(c.model, "gpt-4o");
    assert_eq!(c.object, "chat.completion.chunk");
    assert!(c.id.starts_with("chatcmpl-"));
    assert_eq!(c.choices.len(), 1);
    assert_eq!(c.choices[0].delta.content, Some("hi".to_string()));
    assert_eq!(c.choices[0].finish_reason, None);
    let s = stop_chunk("gpt-4o");
    assert_eq!(s.choices.len(), 1);
    assert_eq!(s.choices[0].delta.content, None);
    assert_eq!(s.choices[0].finish_reason, Some("stop".to_string()));
}

#[test]
fn pieces_reassemble_the_text() {
    let texts = ["Th", "The a", "The answer", "The answer is 42", "The answer is 42 ✓"];
    let records: Vec<SseRecord> = texts.iter().map(|t| content(t)).collect();
    let step = StreamState::start().absorb(&records);
    assert_eq!(step.deltas.concat(), "The answer is 42 ✓");
    assert_eq!(step.state.previous, "The answer is 42 ✓");
}

#[test]
fn readers_agree_on_the_answer() {
    let records = vec![
        content("Hel"),
        SseRecord::Id(Some(1)),
        content("Hello"),
        content("He"),
        final_event(Some("ignored")),
    ];
    let step = StreamState::start().absorb(&records);
    assert_eq!(step.end, StreamEnd::Finished);
    let answer = PollState::start().absorb(&records);
    assert_eq!(answer, PollOutcome::Complete(step.state.previous.clone()));
    assert_eq!(step.deltas.concat(), "Hello");
}

#[test]
fn streamed_pieces_match_the_answer_past_shorter_texts() {
    let records = vec![
        content("The"),
        content("Tx"),
        content("The sky"),
        SseRecord::Id(Some(3)),
        content("short"),
        content("The sky is blue"),
        final_event(None),
    ];
    let step = StreamState::start().absorb(&records);
    assert_eq!(step.end, StreamEnd::Finished);
    assert_eq!(step.deltas, vec!["The".to_string(), " sky".to_string(), " is blue".to_string()]);
    let answer = PollState::start().absorb(&records);
    assert_eq!(answer, PollOutcome::Complete(step.deltas.concat()));
}

#[test]
fn records_read_from_lines() {
    let lines = vec![
        SseLine::Id(Some(9)),
        SseLine::Data(
            "{\"html_content\":\"<b>Hi</b>\",\"text\":\"Hi\",\"is_final\":false,\"cursor\":12}"
                .to_string(),
        ),
        SseLine::Data("not json".to_string()),
        SseLine::Data("{\"html_content\":7,\"is_final\":\"yes\",\"cursor\":-1}".to_string()),
        SseLine::Id(None),
        SseLine::Other,
        SseLine::Data("{\"is_final\":true}".to_string()),
    ];
    let records = read_records(lines);
    assert_eq!(
        records,
        vec![
            SseRecord::Id(Some(9)),
            SseRecord::Event(StreamEvent {
                html_content: Some("<b>Hi</b>".to_string()),
                text: Some("Hi".to_string()),
                is_final: Some(false),
                cursor: Some(12),
            }),
            SseRecord::Skip,
            SseRecord::Event(StreamEvent {
                html_content: None,
                text: None,
                is_final: None,
                cursor: None,
            }),
            SseRecord::Id(None),
            SseRecord::Skip,
            final_event(None),
        ]
    );
}

#[test]
fn body_to_answer() {
    let body = "id: 1\ndata: {\"html_content\":\"<p>Hello</p>\"}\n\ndata: {\"is_final\":true}\n";
    let records = read_records(frame_stream_body(body));
    assert_eq!(PollState::start().absorb(&records), PollOutcome::Complete("Hello".to_string()));
}

#[test]
fn one_shot_reader_answers_replies() {
    let state = PollState { cursor: 4, accumulated: "so far".to_string() };
    assert_eq!(
        state.clone().answer(StreamReply::Failed("timed out".to_string())),
        Err(AppError::UpstreamError("Failed to poll stream: timed out".to_string()))
    );
    assert_eq!(
        state.clone().answer(StreamReply::Refused),
        Ok(PollOutcome::Complete("so far".to_string()))
    );
    let body = "id: 7\ndata: {\"html_content\":\"so far and more\"}\n";
    assert_eq!(
        state.clone().answer(StreamReply::Body(body.to_string())),
        Ok(PollOutcome::Pending(PollState { cursor: 8, accumulated: "so far and more".to_string() }))
    );
    assert_eq!(
        state.clone().answer(StreamReply::Body("   ".to_string())),
        Ok(PollOutcome::Pending(state))
    );
}

#[test]
fn streaming_reader_answers_replies() {
    let state = StreamState { cursor: 2, previous: "Hi".to_string() };
    let unchanged = StreamStep { state: state.clone(), deltas: vec![], end: StreamEnd::Open };
    let turn = state.clone().answer(StreamReply::Failed("reset".to_string()));
    assert_eq!((turn.step, turn.pause_ms), (unchanged.clone(), 500));
    let turn = state.clone().answer(StreamReply::Refused);
    assert_eq!((turn.step, turn.pause_ms), (unchanged.clone(), 500));
    let turn = state.clone().answer(StreamReply::Body(" \n ".to_string()));
    assert_eq!((turn.step, turn.pause_ms), (unchanged, 200));
    let body = "data: {\"html_content\":\"Hi there\"}\ndata: {\"is_final\":true}\n";
    let turn = state.answer(StreamReply::Body(body.to_string()));
    assert_eq!(turn.pause_ms, 0);
    assert_eq!(turn.step.deltas, vec![" there".to_string()]);
    assert_eq!(turn.step.end, StreamEnd::Finished);
}

#[test]
fn body_records_follow_the_lines() {
    let body = "id: 3\nevent: x\ndata: {\"cursor\":5}\ndata: nope";
    assert_eq!(body_records_exec(body), read_records(frame_stream_body(body)));
    assert_eq!(body_records_exec(body).len(), 4);
}

#[test]
fn reader_never_breaks_on_continuing_texts() {
    let records = vec![
        content("a"),
        content("aé"),
        content("z"),
        SseRecord::Id(Some(u64::MAX - 1)),
        content("aé✓"),
    ];
    let step = StreamState::start().absorb(&records);
    assert_eq!(step.end, StreamEnd::Open);
    assert_eq!(step.deltas.concat(), "aé✓");
}
