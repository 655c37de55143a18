use pdf2key::job::{Action, ConversionError, ConversionJob, Event, Phase, StatusKind};
use pdf2key::script::{AssemblyError, PERMISSION_HINT};

fn started(nanos: u128) -> ConversionJob {
    let mut job = ConversionJob::new("/docs/talk.pdf", "/docs/talk.key", "/tmp", nanos);
    match job.step(Event::WorkspaceCreated) {
        Action::RenderPages { source, dpi } => {
            assert_eq!(source, "/docs/talk.pdf");
            assert_eq!(dpi, 200);
        }
        other => panic!("unexpected action {:?}", other),
    }
    job
}

/// Runs a job through rendering `n` pages and saving each; returns the
/// progress values seen and the last action.
fn spool_all(job: &mut ConversionJob, n: u64) -> (Vec<u32>, Action) {
    let mut seen = vec![job.status().progress];
    let mut action = job.step(Event::PagesRendered(n));
    seen.push(job.status().progress);
    let mut expected: u64 = 0;
    while let Action::SavePage { ordinal, path } = &action {
        assert_eq!(*ordinal, expected);
        assert_eq!(path, &format!("{}/slide_{:04}.png", job.workspace(), expected));
        expected += 1;
        action = job.step(Event::PageSaved);
        seen.push(job.status().progress);
    }
    (seen, action)
}

#[test]
fn new_job_is_idle() {
    let job = ConversionJob::new("/a.pdf", "/a.key", "/tmp", 42);
    assert_eq!(job.phase(), Phase::Idle);
    assert_eq!(job.workspace(), "/tmp/pdf2key_42");
    let st = job.status();
    assert_eq!(st.message, "Inicializando...");
    assert_eq!(st.progress, 0);
    assert_eq!(st.kind, StatusKind::InProgress);
    assert!(job.is_in_progress());
}

#[test]
fn rendering_status_is_set_before_rendering() {
    let job = started(1);
    assert_eq!(job.phase(), Phase::Rendering);
    let st = job.status();
    assert_eq!(st.message, "Renderizando páginas...");
    assert_eq!(st.progress, 100);
}

#[test]
fn three_pages_succeed() {
    let mut job = started(7);
    let (seen, action) = spool_all(&mut job, 3);
    assert_eq!(job.slide_count(), 3);
    for k in 0..3 {
        let s = job.slide(k);
        assert_eq!(s.ordinal, k as u64);
        assert_eq!(s.path, format!("/tmp/pdf2key_7/slide_{:04}.png", k));
    }
    let script = match action {
        Action::RunScript(s) => s,
        other => panic!("unexpected action {:?}", other),
    };
    assert!(script.contains(
        "{\"/tmp/pdf2key_7/slide_0000.png\", \"/tmp/pdf2key_7/slide_0001.png\", \"/tmp/pdf2key_7/slide_0002.png\"}"
    ));
    assert!(script.contains("set outputPath to \"/docs/talk.key\""));
    assert_eq!(job.phase(), Phase::Assembling);
    assert_eq!(job.status().progress, 800);
    let done = job.step(Event::ScriptFinished { success: true, stderr: String::new() });
    match done {
        Action::RemoveWorkspace(w) => assert_eq!(w, "/tmp/pdf2key_7"),
        other => panic!("unexpected action {:?}", other),
    }
    let st = job.status();
    assert_eq!(job.phase(), Phase::Succeeded);
    assert_eq!(st.kind, StatusKind::Succeeded);
    assert_eq!(st.progress, 1000);
    assert_eq!(st.message, "Concluído!");
    assert!(!job.is_in_progress());
    let mut all = seen;
    all.push(st.progress);
    assert_eq!(all, vec![100, 200, 366, 533, 800, 1000]);
}

#[test]
fn page_messages_count_from_one() {
    let mut job = started(2);
    job.step(Event::PagesRendered(2));
    assert_eq!(job.status().message, "Processando página 1 de 2...");
    job.step(Event::PageSaved);
    assert_eq!(job.status().message, "Processando página 2 de 2...");
    job.step(Event::PageSaved);
    assert_eq!(job.status().message, "Criando apresentação no Keynote...");
}

#[test]
fn progress_never_decreases_over_many_pages() {
    let mut job = started(3);
    let (seen, _) = spool_all(&mut job, 137);
    assert!(seen.windows(2).all(|w| w[0] <= w[1]));
    assert!(seen.iter().all(|p| *p < 1000));
    assert_eq!(job.slide_count(), 137);
}

#[test]
fn script_failure_fails_the_job() {
    let mut job = started(9);
    let (_, action) = spool_all(&mut job, 1);
    assert!(matches!(action, Action::RunScript(_)));
    let act = job.step(Event::ScriptFinished { success: false, stderr: "not authorized".to_string() });
    match act {
        Action::RemoveWorkspace(w) => assert_eq!(w, "/tmp/pdf2key_9"),
        other => panic!("unexpected action {:?}", other),
    }
    let st = job.status();
    assert_eq!(job.phase(), Phase::Failed);
    assert_eq!(st.kind, StatusKind::Failed);
    assert!(st.progress < 1000);
    assert_eq!(st.message, "Erro no Keynote (Verifique permissões de acesso): not authorized");
    assert!(st.message.starts_with(PERMISSION_HINT));
    assert_eq!(st.progress, 800);
}

#[test]
fn zero_pages_fail_without_script() {
    let mut job = started(4);
    let act = job.step(Event::PagesRendered(0));
    assert!(matches!(act, Action::RemoveWorkspace(_)));
    assert_eq!(job.phase(), Phase::Failed);
    let st = job.status();
    assert_eq!(st.kind, StatusKind::Failed);
    assert_eq!(st.message, AssemblyError::NoSlides.message());
    assert_eq!(st.progress, 100);
    assert!(matches!(job.step(Event::PageSaved), Action::Nothing));
    assert!(matches!(job.step(Event::ScriptFinished { success: true, stderr: String::new() }), Action::Nothing));
    assert_eq!(job.phase(), Phase::Failed);
}

#[test]
fn render_failure_names_the_page() {
    let mut job = started(5);
    let act = job.step(Event::Failed(ConversionError::Render { page: 1 }));
    assert!(matches!(act, Action::RemoveWorkspace(_)));
    let st = job.status();
    assert_eq!(st.message, "Falha ao renderizar página 2");
    assert_eq!(st.kind, StatusKind::Failed);
    assert_eq!(st.progress, 100);
}

#[test]
fn io_failure_while_spooling_keeps_progress() {
    let mut job = started(6);
    job.step(Event::PagesRendered(4));
    job.step(Event::PageSaved);
    let before = job.status().progress;
    job.step(Event::Failed(ConversionError::Io("disk full".to_string())));
    let st = job.status();
    assert_eq!(st.progress, before);
    assert_eq!(st.message, "Falha ao salvar página 2: disk full");
    assert_eq!(job.slide_count(), 1);
}

#[test]
fn finished_job_ignores_events() {
    let mut job = started(8);
    spool_all(&mut job, 1);
    job.step(Event::ScriptFinished { success: true, stderr: String::new() });
    assert!(matches!(job.step(Event::Failed(ConversionError::Time)), Action::Nothing));
    assert_eq!(job.phase(), Phase::Succeeded);
    assert_eq!(job.status().progress, 1000);
}

#[test]
fn out_of_order_events_are_ignored() {
    let mut job = ConversionJob::new("/a.pdf", "/a.key", "/tmp", 1);
    assert!(matches!(job.step(Event::PagesRendered(3)), Action::Nothing));
    assert!(matches!(job.step(Event::PageSaved), Action::Nothing));
    assert_eq!(job.phase(), Phase::Idle);
}

#[test]
fn open_failure_before_rendering() {
    let mut job = ConversionJob::new("/missing.pdf", "/a.key", "/tmp", 1);
    job.step(Event::Failed(ConversionError::Open));
    assert_eq!(job.status().message, "Falha ao abrir o arquivo PDF");
    assert_eq!(job.status().progress, 0);
}

#[test]
fn time_error_message() {
    assert_eq!(ConversionError::Time.message(), "Relógio do sistema indisponível");
}

#[test]
fn two_runs_use_distinct_workspaces_and_same_slides() {
    let mut a = ConversionJob::new("/d.pdf", "/one.key", "/tmp", 100);
    let mut b = ConversionJob::new("/d.pdf", "/two.key", "/tmp", 101);
    assert_ne!(a.workspace(), b.workspace());
    a.step(Event::WorkspaceCreated);
    b.step(Event::WorkspaceCreated);
    let (pa, _) = spool_all(&mut a, 2);
    let (pb, _) = spool_all(&mut b, 2);
    assert_eq!(pa, pb);
    for k in 0..2 {
        assert_ne!(a.slide(k).path, b.slide(k).path);
        assert_eq!(a.slide(k).ordinal, b.slide(k).ordinal);
    }
}

#[test]
fn io_failure_outside_spooling_is_verbatim() {
    let mut job = ConversionJob::new("/a.pdf", "/a.key", "/tmp", 1);
    job.step(Event::Failed(ConversionError::Io("permission denied".to_string())));
    assert_eq!(job.status().message, "permission denied");
}

#[test]
fn launch_failure_while_assembling() {
    let mut job = started(11);
    spool_all(&mut job, 1);
    job.step(Event::Failed(ConversionError::Assembly(AssemblyError::LaunchFailed)));
    let st = job.status();
    assert_eq!(st.message, "Falha ao executar osascript");
    assert_eq!(st.kind, StatusKind::Failed);
    assert_eq!(st.progress, 800);
}

#[test]
fn library_failure_is_verbatim() {
    let mut job = started(12);
    job.step(Event::Failed(ConversionError::Library("PDFium ausente".to_string())));
    assert_eq!(job.status().message, "PDFium ausente");
    assert_eq!(job.status().progress, 100);
}
