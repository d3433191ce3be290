use faster_cli::cli::{Cli, Exit, Output};
use faster_cli::error::Error;
use faster_cli::render::summary::Detail;
use faster_cli::session::{first_step, keep_client_info, next_step, Scope, Step};

fn flags(download_only: bool, json: bool, verbose: bool) -> Cli {
    Cli { download_only, json, verbose }
}

#[test]
fn a_bare_invocation_measures_everything_for_a_person() {
    let cli = Cli::default();
    assert_eq!(cli.scope(), Scope::Full);
    assert_eq!(cli.detail(), Detail::Plain);
    assert_eq!(cli.output(), Output::Human);
}

#[test]
fn each_flag_maps_to_its_own_choice() {
    assert_eq!(flags(true, false, false).scope(), Scope::DownloadOnly);
    assert_eq!(flags(false, false, true).detail(), Detail::Verbose);
    assert_eq!(flags(false, false, true).detail(), Detail::Verbose);
    assert_eq!(flags(false, true, false).output(), Output::Json);
}

#[test]
fn an_interruption_is_distinguishable_from_a_failure() {
    assert_eq!(Exit::for_error(&Error::Cancelled), Exit::Interrupted);
    assert_eq!(
        Exit::for_error(&Error::UnexpectedStatus { status: 503 }),
        Exit::Failed
    );
}

#[test]
fn exit_codes_follow_the_shell_conventions() {
    assert_eq!(Exit::Success.code(), 0);
    assert_eq!(Exit::Failed.code(), 1);
    assert_eq!(Exit::Interrupted.code(), 130);
}

#[test]
fn a_full_run_measures_the_upload_last() {
    let mut steps = vec![first_step()];
    while *steps.last().unwrap() != Step::Finished {
        steps.push(next_step(Scope::Full, *steps.last().unwrap()));
    }
    assert_eq!(
        steps,
        [Step::ClientInfo, Step::Latency, Step::Download, Step::Upload, Step::Finished]
    );
}

#[test]
fn a_download_only_run_skips_the_upload() {
    let mut steps = vec![first_step()];
    while *steps.last().unwrap() != Step::Finished {
        steps.push(next_step(Scope::DownloadOnly, *steps.last().unwrap()));
    }
    assert_eq!(steps, [Step::ClientInfo, Step::Latency, Step::Download, Step::Finished]);
}

#[test]
fn a_server_that_will_not_describe_itself_costs_nothing() {
    let info = keep_client_info(Err(Error::UnexpectedStatus { status: 500 }));
    assert_eq!(info.ip, None);
    assert_eq!(info.colo, None);
    assert_eq!(info.country, None);
}
