use cros_codecs::decoder::DecodeError;
use cros_codecs::error::Error;
use cros_codecs::utils::PlaybackAction;
use cros_codecs::utils::PlaybackAnswer;
use cros_codecs::utils::PlaybackEvent;
use cros_codecs::utils::SimplePlayback;
use cros_codecs::BlockingMode;

// Plays the answers of a decoder back to the playback: one of `decoded`
// for each packet offered, one of `events` for each event asked for, and
// `NoEvent` once those are used up. Lists what the playback asked for.
fn run(
    num_packets: usize,
    mode: BlockingMode,
    decoded: &[Result<(), DecodeError>],
    events: &[PlaybackEvent],
) -> Vec<PlaybackAction> {
    let mut playback = SimplePlayback::new(num_packets, mode);
    let mut decoded = decoded.iter();
    let mut events = events.iter();
    let mut actions = Vec::new();
    let mut answer = PlaybackAnswer::Nothing;
    while !playback.is_done() {
        let action = playback.step(answer);
        answer = match action {
            PlaybackAction::Decode { .. } => {
                PlaybackAnswer::Decoded(*decoded.next().expect("an answer for every offer"))
            }
            PlaybackAction::NextEvent => {
                PlaybackAnswer::Event(*events.next().unwrap_or(&PlaybackEvent::NoEvent))
            }
            _ => PlaybackAnswer::Nothing,
        };
        actions.push(action);
        assert!(actions.len() < 100);
    }
    assert_eq!(playback.step(PlaybackAnswer::Nothing), PlaybackAction::Finish);
    assert_eq!(playback.step(PlaybackAnswer::Decoded(Ok(()))), PlaybackAction::Finish);
    assert!(playback.is_done());
    actions
}

fn decode(n: usize) -> PlaybackAction {
    PlaybackAction::Decode { frame_num: n as u64, packet: n }
}

const FETCH: PlaybackAction = PlaybackAction::NextEvent;
const SHOW: PlaybackAction = PlaybackAction::ShowFrame;

#[test]
fn playback_offers_every_packet_once() {
    let actions = run(3, BlockingMode::NonBlocking, &[Ok(()), Ok(()), Ok(())], &[]);
    assert_eq!(
        actions,
        vec![decode(0), decode(1), decode(2), PlaybackAction::Flush, FETCH, PlaybackAction::Finish]
    );
}

#[test]
fn playback_in_blocking_mode_fetches_events_behind_each_packet() {
    let actions = run(2, BlockingMode::Blocking, &[Ok(()), Ok(())], &[]);
    assert_eq!(
        actions,
        vec![
            decode(0),
            FETCH,
            decode(1),
            FETCH,
            PlaybackAction::Flush,
            FETCH,
            PlaybackAction::Finish,
        ]
    );
}

#[test]
fn playback_shows_each_frame_that_is_ready() {
    let events = [
        PlaybackEvent::FrameReady,
        PlaybackEvent::FormatChanged,
        PlaybackEvent::FrameReady,
        PlaybackEvent::NoEvent,
        PlaybackEvent::FrameReady,
    ];
    let actions = run(1, BlockingMode::Blocking, &[Ok(())], &events);
    assert_eq!(
        actions,
        vec![
            decode(0),
            FETCH,
            SHOW,
            FETCH,
            // The change of format is passed over.
            FETCH,
            SHOW,
            FETCH,
            PlaybackAction::Flush,
            FETCH,
            SHOW,
            FETCH,
            PlaybackAction::Finish,
        ]
    );
    let shown = actions.iter().filter(|a| **a == SHOW).count();
    assert_eq!(shown, 3);
}

#[test]
fn playback_offers_a_refused_packet_again() {
    let busy = Err(DecodeError::CheckEvents);
    let actions = run(
        2,
        BlockingMode::NonBlocking,
        &[Ok(()), busy, busy, Ok(())],
        &[PlaybackEvent::FrameReady],
    );
    assert_eq!(
        actions,
        vec![
            decode(0),
            decode(1),
            FETCH,
            SHOW,
            FETCH,
            decode(1),
            FETCH,
            decode(1),
            PlaybackAction::Flush,
            FETCH,
            PlaybackAction::Finish,
        ]
    );
}

#[test]
fn playback_of_nothing_flushes() {
    let actions = run(0, BlockingMode::Blocking, &[], &[PlaybackEvent::FrameReady]);
    assert_eq!(
        actions,
        vec![PlaybackAction::Flush, FETCH, SHOW, FETCH, PlaybackAction::Finish]
    );
}

#[test]
fn playback_stops_at_a_decoder_error() {
    let failed = DecodeError::DecoderError(Error::DeviceIo);
    let actions = run(3, BlockingMode::Blocking, &[Ok(()), Err(failed)], &[]);
    assert_eq!(actions, vec![decode(0), FETCH, decode(1), PlaybackAction::Abort(failed)]);
}

#[test]
fn playback_repeats_what_got_no_answer() {
    let mut playback = SimplePlayback::new(2, BlockingMode::Blocking);
    assert_eq!(playback.taken(), 0);
    assert_eq!(playback.step(PlaybackAnswer::Nothing), decode(0));
    assert_eq!(playback.step(PlaybackAnswer::Nothing), decode(0));
    // An event is no answer to an offer.
    assert_eq!(playback.step(PlaybackAnswer::Event(PlaybackEvent::NoEvent)), decode(0));
    assert_eq!(playback.taken(), 0);
    assert_eq!(playback.step(PlaybackAnswer::Decoded(Ok(()))), FETCH);
    assert_eq!(playback.taken(), 1);
    assert_eq!(playback.step(PlaybackAnswer::Nothing), FETCH);
    // An answer to an offer is no event.
    assert_eq!(playback.step(PlaybackAnswer::Decoded(Ok(()))), FETCH);
    assert_eq!(playback.taken(), 1);
    assert_eq!(playback.step(PlaybackAnswer::Event(PlaybackEvent::NoEvent)), decode(1));
    // An answer that nobody asked for is not counted.
    let mut playback = SimplePlayback::new(2, BlockingMode::NonBlocking);
    assert_eq!(playback.step(PlaybackAnswer::Decoded(Ok(()))), decode(0));
    assert_eq!(playback.taken(), 0);
}

#[test]
fn playback_ends_where_the_stream_runs_out() {
    // The caller does not know how long the stream is, and says so when it
    // has run out.
    let mut playback = SimplePlayback::new(usize::MAX, BlockingMode::NonBlocking);
    assert_eq!(playback.step(PlaybackAnswer::Nothing), decode(0));
    assert_eq!(playback.step(PlaybackAnswer::Decoded(Ok(()))), decode(1));
    assert_eq!(playback.step(PlaybackAnswer::Decoded(Err(DecodeError::CheckEvents))), FETCH);
    assert_eq!(playback.step(PlaybackAnswer::Event(PlaybackEvent::NoEvent)), decode(1));
    assert_eq!(playback.step(PlaybackAnswer::Decoded(Ok(()))), decode(2));
    assert_eq!(playback.step(PlaybackAnswer::EndOfStream), PlaybackAction::Flush);
    assert_eq!(playback.taken(), 2);
    assert_eq!(playback.step(PlaybackAnswer::Nothing), FETCH);
    assert_eq!(playback.step(PlaybackAnswer::Event(PlaybackEvent::FrameReady)), SHOW);
    assert_eq!(playback.step(PlaybackAnswer::Nothing), FETCH);
    // The end of the stream is no event: the decoder is asked again.
    assert_eq!(playback.step(PlaybackAnswer::EndOfStream), FETCH);
    assert_eq!(
        playback.step(PlaybackAnswer::Event(PlaybackEvent::NoEvent)),
        PlaybackAction::Finish
    );
    assert!(playback.is_done());
    // Before a packet is offered, the end of the stream is no answer.
    let mut playback = SimplePlayback::new(3, BlockingMode::Blocking);
    assert_eq!(playback.step(PlaybackAnswer::EndOfStream), decode(0));
    assert_eq!(playback.step(PlaybackAnswer::EndOfStream), PlaybackAction::Flush);
}
