//! Writing traces and reading them back.

use aria::action::Action;
use aria::condition::Condition;
use aria::emit::{
    check_readout, check_replay, dump_latents, emit_tokens, emit_vectors, replay_config, Token,
};
use aria::config::{AriaConfig, GateConfig};
use aria::json::Numerals;
use aria::policy::MatchPolicy;
use aria::scalar::Real;
use aria::trace::{entry_line, header_line, header_usize, parse_trace, stream_line, Trace, TraceEntry};

struct Plain;

impl Numerals for Plain {
    fn render(&self, x: Real) -> serde_json::Value {
        serde_json::Value::from(f64::from_bits(x.bits))
    }
}

/// Renders every number as an integer.
struct Rounded;

impl Numerals for Rounded {
    fn render(&self, x: Real) -> serde_json::Value {
        serde_json::Value::from(f64::from_bits(x.bits) as u64)
    }
}

fn num(x: f64) -> Real {
    Real { bits: x.to_bits() }
}

fn sample() -> Trace {
    let mut trace =
        Trace::new(256, 64, num(1.0), Some(7), "opdms", Condition::WorldModel, MatchPolicy::Merge);
    trace.push(0, Action::OpticalStep, num(0.5), num(1.0), 0, "worldmodel");
    trace.push(0, Action::Diffuse, num(0.1), num(1e-300), 12, "worldmodel");
    trace.push(1, Action::Stutter, num(f64::NAN), num(f64::INFINITY), 12, "worldmodel");
    trace
}

fn config() -> AriaConfig {
    AriaConfig {
        n_modes: 8,
        latent_dim: 16,
        eps: num(0.25),
        eps_energy: num(1e-9),
        stutter_k: 2,
        schedule: "opmd".to_string(),
        condition: Condition::Token,
        match_policy: MatchPolicy::OneEdit,
        diff_policy: "graph_conditioned".to_string(),
        max_graph_size: 5000,
        merge_tau: num(0.5),
        allow_sub_spec_dims: true,
        seed: Some(42),
        strict: true,
        gates: GateConfig { enabled: vec![], stutter_k: 2 },
        optical: None,
        vocab_size: 256,
    }
}

#[test]
fn header_round_trips_seed_schedule_condition_match_policy() {
    let trace =
        Trace::new(256, 64, num(1.0), Some(7), "opdms", Condition::WorldModel, MatchPolicy::Merge);
    let jsonl = trace.to_jsonl(&Plain).unwrap();
    let header: serde_json::Value = serde_json::from_str(jsonl.lines().next().unwrap()).unwrap();

    assert_eq!(header["seed"], serde_json::Value::from(7));
    assert_eq!(header["schedule"], serde_json::Value::from("opdms"));
    assert_eq!(header["condition"], serde_json::Value::from("world_model"));
    assert_eq!(header["match_policy"], serde_json::Value::from("merge"));
}

#[test]
fn header_seed_is_null_when_run_had_none() {
    let trace =
        Trace::new(256, 64, num(1.0), None, "opmd", Condition::Token, MatchPolicy::Identity);
    let jsonl = trace.to_jsonl(&Plain).unwrap();
    let header: serde_json::Value = serde_json::from_str(jsonl.lines().next().unwrap()).unwrap();
    assert!(header["seed"].is_null());
}

#[test]
fn a_trace_is_written_line_by_line() {
    let jsonl = sample().to_jsonl(&Plain).unwrap();
    let lines: Vec<&str> = jsonl.lines().collect();
    assert_eq!(lines.len(), 4);
    assert!(jsonl.ends_with('\n'));
    assert_eq!(
        lines[0],
        "{\"condition\":\"world_model\",\"eps\":1.0,\"latent_dim\":64,\"match_policy\":\"merge\",\"n_modes\":256,\"schedule\":\"opdms\",\"seed\":7,\"type\":\"config\"}"
    );
    assert_eq!(
        lines[1],
        "{\"t\":0,\"action\":\"O\",\"res\":0.5,\"energy\":1.0,\"graph_size\":0,\"condition\":\"worldmodel\"}"
    );
    assert_eq!(
        lines[3],
        "{\"t\":1,\"action\":\"S\",\"res\":null,\"energy\":null,\"graph_size\":12,\"condition\":\"worldmodel\"}"
    );
    assert_eq!(sample().action_sequence(), "ODS");
}

#[test]
fn a_trace_without_steps_is_written_but_not_read() {
    let trace =
        Trace::new(8, 16, num(1.0), None, "opmd", Condition::Token, MatchPolicy::Identity);
    let text = trace.to_jsonl(&Plain).unwrap();
    assert_eq!(text.lines().count(), 1);
    assert_eq!(complaint(&text), "trace has no step rows");
}

#[test]
fn single_lines_are_those_of_the_whole() {
    let trace = sample();
    let jsonl = trace.to_jsonl(&Plain).unwrap();
    let lines: Vec<&str> = jsonl.lines().collect();
    assert_eq!(header_line(&trace, &Plain).unwrap(), lines[0]);
    assert_eq!(entry_line(&trace.entries[1], &Plain).unwrap(), lines[2]);
    assert_eq!(
        stream_line(&trace.entries[0], &Plain).unwrap(),
        "{\"action\":\"O\",\"condition\":\"worldmodel\",\"energy\":1.0,\"graph_size\":0,\"res\":0.5,\"t\":0}"
    );
}

#[test]
fn a_written_trace_reads_back() {
    let (header, rows) = parse_trace(&sample().to_jsonl(&Plain).unwrap()).unwrap();
    assert_eq!(header.n_modes, 256);
    assert_eq!(header.latent_dim, 64);
    assert_eq!(header.eps, num(1.0));
    assert_eq!(header.seed, Some(Some(7)));
    assert_eq!(header.schedule.as_deref(), Some("opdms"));
    assert_eq!(header.condition, Some(Condition::WorldModel));
    assert_eq!(header.match_policy, Some(MatchPolicy::Merge));
    let read: Vec<(u64, &str)> = rows.iter().map(|r| (r.t, r.action.as_str())).collect();
    assert_eq!(read, vec![(0, "O"), (0, "D"), (1, "S")]);
}

#[test]
fn a_streamed_trace_reads_back() {
    let trace = sample();
    let mut text = header_line(&trace, &Plain).unwrap();
    text.push('\n');
    for entry in &trace.entries {
        text.push_str(&stream_line(entry, &Plain).unwrap());
        text.push('\n');
    }
    let (header, rows) = parse_trace(&text).unwrap();
    assert_eq!(header.seed, Some(Some(7)));
    assert_eq!(rows.len(), 3);
    assert_eq!((rows[2].t, rows[2].action.as_str()), (1, "S"));
}

#[test]
fn texts_that_need_escapes_read_back() {
    let schedule = "o\"p\\m\nd\u{1f600}";
    let mut trace =
        Trace::new(1, 1, num(0.1), None, schedule, Condition::Diffusion, MatchPolicy::RebuildGStar);
    trace.push(3, Action::Match, num(-0.0), num(5e-324), 1, "diffusion");
    let text = trace.to_jsonl(&Plain).unwrap();
    assert_eq!(text.lines().count(), 2);
    let (header, rows) = parse_trace(&text).unwrap();
    assert_eq!(header.schedule.as_deref(), Some(schedule));
    assert_eq!(header.eps, num(0.1));
    assert_eq!(header.seed, Some(None));
    assert_eq!(header.condition, Some(Condition::Diffusion));
    assert_eq!(header.match_policy, Some(MatchPolicy::RebuildGStar));
    assert_eq!((rows[0].t, rows[0].action.as_str()), (3, "M"));
}

#[test]
fn a_renderer_that_rounds_is_caught() {
    let trace =
        Trace::new(1, 1, num(0.25), None, "opmd", Condition::Token, MatchPolicy::Identity);
    assert_eq!(trace.to_jsonl(&Rounded), Err(num(0.25)));
    let entry = TraceEntry {
        t: 0,
        action: "O".to_string(),
        res: num(0.5),
        energy: num(0.75),
        graph_size: 0,
        condition: "token".to_string(),
    };
    assert_eq!(stream_line(&entry, &Rounded), Err(num(0.5)));
    assert_eq!(entry_line(&entry, &Rounded), Err(num(0.5)));
}

fn complaint(text: &str) -> String {
    match parse_trace(text) {
        Ok(_) => "none".to_string(),
        Err(why) => why,
    }
}

#[test]
fn a_trace_that_cannot_be_read_is_named() {
    let head = "{\"type\":\"config\",\"n_modes\":8,\"latent_dim\":16,\"eps\":1}";
    assert_eq!(complaint(""), "trace is empty");
    assert!(complaint("{").starts_with("trace header: "));
    assert_eq!(complaint("{\"type\":\"step\"}"), "first trace line must be a config header");
    assert_eq!(complaint("{\"type\":\"config\"}"), "header missing n_modes");
    assert_eq!(complaint("{\"type\":\"config\",\"n_modes\":8}"), "header missing latent_dim");
    assert_eq!(
        complaint("{\"type\":\"config\",\"n_modes\":8,\"latent_dim\":16}"),
        "header missing eps"
    );
    assert_eq!(complaint(head), "trace has no step rows");
    assert_eq!(complaint(&format!("{head}\n\n  \n")), "trace has no step rows");
    assert!(complaint(&format!("{head}\nnope")).starts_with("trace row 0: "));
    assert_eq!(complaint(&format!("{head}\n\n{{\"action\":\"O\"}}")), "trace row 1 missing t");
    assert_eq!(complaint(&format!("{head}\n{{\"t\":3}}")), "trace row 0 missing action");
}

#[test]
fn settings_that_cannot_be_used_are_as_good_as_absent() {
    let text = "{\"type\":\"config\",\"n_modes\":8,\"latent_dim\":16,\"eps\":1,\"seed\":-1,\"schedule\":7,\"condition\":\"worldmodel\",\"match_policy\":\"best\"}\n{\"t\":0,\"action\":\"O\"}";
    let (header, rows) = parse_trace(text).unwrap();
    assert_eq!(header.seed, None);
    assert_eq!(header.schedule, None);
    assert_eq!(header.condition, None);
    assert_eq!(header.match_policy, None);
    assert_eq!(rows.len(), 1);
    let replay = replay_config(config(), header);
    assert_eq!(replay.seed, Some(42));
    assert_eq!(replay.condition, Condition::Token);
}

#[test]
fn a_header_may_leave_settings_to_the_configuration() {
    let text = "{\"type\":\"config\",\"n_modes\":8,\"latent_dim\":16,\"eps\":1}\r\n{\"t\":4,\"action\":\"P\"}";
    let (header, rows) = parse_trace(text).unwrap();
    assert_eq!(header.eps, num(1.0));
    assert_eq!(header.seed, None);
    assert_eq!(header.schedule, None);
    assert_eq!(header.condition, None);
    assert_eq!(header.match_policy, None);
    assert_eq!((rows[0].t, rows[0].action.as_str()), (4, "P"));

    let replay = replay_config(config(), header);
    assert_eq!(replay.n_modes, 8);
    assert_eq!(replay.eps, num(1.0));
    assert_eq!(replay.seed, Some(42));
    assert_eq!(replay.schedule, "opmd");
    assert_eq!(replay.match_policy, MatchPolicy::OneEdit);
    assert!(replay.allow_sub_spec_dims);
}

#[test]
fn a_replay_takes_its_settings_from_the_header() {
    let (header, _) = parse_trace(&sample().to_jsonl(&Plain).unwrap()).unwrap();
    let replay = replay_config(config(), header);
    assert_eq!(replay.n_modes, 256);
    assert_eq!(replay.latent_dim, 64);
    assert_eq!(replay.seed, Some(7));
    assert_eq!(replay.schedule, "opdms");
    assert_eq!(replay.condition, Condition::WorldModel);
    assert_eq!(replay.match_policy, MatchPolicy::Merge);
    assert_eq!(replay.max_graph_size, 5000);

    // A run without a seed is replayed without one.
    let mut seedless =
        Trace::new(8, 16, num(1.0), None, "opmd", Condition::Token, MatchPolicy::Identity);
    seedless.push(0, Action::OpticalStep, num(0.0), num(0.0), 0, "token");
    let (header, _) = parse_trace(&seedless.to_jsonl(&Plain).unwrap()).unwrap();
    assert_eq!(replay_config(config(), header).seed, None);
}

#[test]
fn header_numbers_must_be_unsigned() {
    let v: serde_json::Value = serde_json::from_str("{\"a\":7,\"b\":-7,\"c\":7.0,\"d\":\"7\"}").unwrap();
    assert_eq!(header_usize(&v, "a"), Ok(7));
    assert_eq!(header_usize(&v, "b"), Err("header missing b".to_string()));
    assert_eq!(header_usize(&v, "c"), Err("header missing c".to_string()));
    assert_eq!(header_usize(&v, "d"), Err("header missing d".to_string()));
    assert_eq!(header_usize(&v, "e"), Err("header missing e".to_string()));
}

#[test]
fn decoded_rows_are_written_one_per_line() {
    let (_, rows) = parse_trace(&sample().to_jsonl(&Plain).unwrap()).unwrap();
    let tokens = vec![
        Token { id: 9, piece: None },
        Token { id: 4_294_967_295, piece: Some("a\nb".to_string()) },
        Token { id: 0, piece: Some(String::new()) },
    ];
    let text = emit_tokens(&rows, &tokens);
    let lines: Vec<&str> = text.lines().collect();
    assert_eq!(
        lines,
        vec![
            "{\"action\":\"O\",\"id\":9,\"t\":0}",
            "{\"action\":\"D\",\"id\":4294967295,\"piece\":\"a\\nb\",\"t\":0}",
            "{\"action\":\"S\",\"id\":0,\"piece\":\"\",\"t\":1}",
        ]
    );
    assert_eq!(emit_tokens(&vec![], &vec![]), "");
}

#[test]
fn decoded_vectors_and_latents_are_written_one_per_line() {
    let (_, rows) = parse_trace(&sample().to_jsonl(&Plain).unwrap()).unwrap();
    let vectors = vec![vec![num(0.5), num(-1.0)], vec![], vec![num(f64::NAN), num(1e300)]];
    let text = emit_vectors(&rows, &vectors, &Plain).unwrap();
    let lines: Vec<&str> = text.lines().collect();
    assert_eq!(
        lines,
        vec![
            "{\"a\":[0.5,-1.0],\"action\":\"O\",\"t\":0}",
            "{\"a\":[],\"action\":\"D\",\"t\":0}",
            "{\"a\":[null,1e+300],\"action\":\"S\",\"t\":1}",
        ]
    );
    let floats = |zs: &Vec<Vec<Real>>| -> Vec<Vec<f64>> {
        zs.iter().map(|z| z.iter().map(|x| f64::from_bits(x.bits)).collect()).collect()
    };
    let dump = dump_latents(&vectors, &Plain).unwrap();
    let expected: Vec<String> =
        floats(&vectors).iter().map(|z| serde_json::to_string(z).unwrap()).collect();
    assert_eq!(dump.lines().collect::<Vec<&str>>(), expected);
    assert_eq!(dump_latents(&vectors, &Rounded), Err(num(0.5)));
    assert_eq!(emit_vectors(&rows, &vectors, &Rounded), Err(num(0.5)));
}

#[test]
fn a_replay_of_another_length_is_refused() {
    assert_eq!(check_replay(20, 20), Ok(()));
    assert_eq!(
        check_replay(19, 20),
        Err("replay produced 19 latents for 20 trace rows — config does not match the run".to_string())
    );
    assert_eq!(check_readout(64, 64), Ok(()));
    assert_eq!(
        check_readout(32, 64),
        Err("readout dim 32 does not match trace latent_dim 64".to_string())
    );
}
