use chrono::Utc;
use miles_control::clock::Timestamp;
use miles_control::worker_client::{
    CommandContext, CommandStatus, MockWorkerClient, WorkerClient,
};
use uuid::Uuid;

fn sample_ctx() -> CommandContext {
    CommandContext {
        job_id: Uuid::new_v4().as_u128(),
        request_id: Uuid::new_v4().as_u128(),
        attempt_id: 2,
        deadline_ms: 15_000,
    }
}

#[test]
fn mock_worker_methods_return_ok_with_expected_messages() {
    let mut client = MockWorkerClient::default();
    let ctx = sample_ctx();

    let init = client.init(ctx.clone()).expect("init");
    let generate = client.generate(ctx.clone()).expect("generate");
    let train = client.train_step(ctx.clone()).expect("train");
    let update = client.update_weights(ctx.clone()).expect("update");
    let eval = client.eval(ctx.clone()).expect("eval");
    let save = client.save_checkpoint(ctx).expect("save");
    let health = client.health().expect("health");

    for (result, msg) in [
        (init, "init"),
        (generate, "generate"),
        (train, "train_step"),
        (update, "update_weights"),
        (eval, "eval"),
        (save, "save_checkpoint"),
        (health, "health"),
    ] {
        assert_eq!(result.status, CommandStatus::Succeeded);
        assert_eq!(result.message, msg);
        let limit = Utc::now() + chrono::Duration::seconds(1);
        assert!(
            result.timestamp
                <= Timestamp {
                    secs: limit.timestamp(),
                    nanos: limit.timestamp_subsec_nanos(),
                }
        );
        assert_eq!(result.clone(), result);
    }
}
