use reference_app::counter::{Campaign, CampaignStep, SharedCounter};
use reference_app::read_after_sleep;

fn run_campaign(worker_count: u64, increments_per_worker: u64) -> u64 {
    let counter = SharedCounter::new();
    let mut campaign = Campaign::begin(&counter, worker_count, increments_per_worker);
    let mut started: Vec<u64> = Vec::new();
    loop {
        match campaign.next_step() {
            CampaignStep::Spawn => {
                counter.run_worker(increments_per_worker);
                started.push(campaign.spawned);
                campaign.record_spawned();
            }
            CampaignStep::Join => {
                started.remove(0);
                campaign.record_joined();
            }
            CampaignStep::Read => {
                assert!(started.is_empty());
                return read_after_sleep(&counter);
            }
        }
    }
}

#[test]
fn campaign_eight_workers_every_trial() {
    for _ in 0..100 {
        assert_eq!(run_campaign(8, 100_000), 800_000);
    }
}

#[test]
fn campaign_no_workers_is_zero() {
    assert_eq!(run_campaign(0, 1_000), 0);
}

#[test]
fn campaign_no_increments_is_zero() {
    assert_eq!(run_campaign(4, 0), 0);
}

#[test]
fn campaign_steps_in_order() {
    let counter = SharedCounter::new();
    counter.increment();
    assert_eq!(read_after_sleep(&counter), 1);
    let mut campaign = Campaign::begin(&counter, 2, 3);
    assert_eq!(read_after_sleep(&counter), 0);
    assert_eq!(campaign.next_step(), CampaignStep::Spawn);
    campaign.record_spawned();
    assert_eq!(campaign.next_step(), CampaignStep::Spawn);
    campaign.record_spawned();
    assert_eq!(campaign.next_step(), CampaignStep::Join);
    campaign.record_joined();
    assert_eq!(campaign.next_step(), CampaignStep::Join);
    campaign.record_joined();
    assert_eq!(campaign.next_step(), CampaignStep::Read);
    assert_eq!(campaign.spawned, 2);
    assert_eq!(campaign.joined, 2);
}

#[test]
fn counter_sequential_worker() {
    let counter = SharedCounter::new();
    counter.run_worker(250);
    assert_eq!(read_after_sleep(&counter), 250);
    counter.reset();
    assert_eq!(read_after_sleep(&counter), 0);
}
