//! The remote GPU aggregator: inventory, selection, allocations, savings.

use reassembly::remote_gpu::akash_catalog;
use reassembly::remote_gpu::ionet_catalog;
use reassembly::remote_gpu::make_listing;
use reassembly::remote_gpu::render_catalog;
use reassembly::remote_gpu::GpuModelClass;
use reassembly::remote_gpu::GpuPriorityMode;
use reassembly::remote_gpu::GpuProvider;
use reassembly::remote_gpu::GpuRequirements;
use reassembly::remote_gpu::Web3GpuAggregator;
use reassembly::types::EngineError;

fn requirements(mode: GpuPriorityMode) -> GpuRequirements {
    GpuRequirements {
        min_vram_gb: 0,
        min_tflops_tenths: 0,
        max_price_per_hour_cents: u64::MAX,
        preferred_providers: Vec::new(),
        max_latency_ms: u32::MAX,
        priority_mode: mode,
    }
}

#[test]
fn test_gpu_aggregator() {
    let mut aggregator = Web3GpuAggregator::new();
    aggregator.refresh_inventory(vec![
        Some(ionet_catalog()),
        Some(render_catalog()),
        Some(akash_catalog()),
    ]);

    let requirements = GpuRequirements {
        min_vram_gb: 16,
        min_tflops_tenths: 200,
        max_price_per_hour_cents: 100,
        preferred_providers: Vec::new(),
        max_latency_ms: 100,
        priority_mode: GpuPriorityMode::Balanced,
    };

    let gpu = aggregator.select_gpu(&requirements);
    assert!(gpu.is_ok());
}

#[test]
fn test_savings_calculation() {
    let aggregator = Web3GpuAggregator::new();
    let report = aggregator.calculate_savings();

    assert!(report.savings_percentage >= 0);
}

#[test]
fn inventory_is_sorted_by_value_after_refresh() {
    let mut aggregator = Web3GpuAggregator::new();
    aggregator.refresh_inventory(vec![
        Some(ionet_catalog()),
        None, // a failed provider is skipped, not fatal
        Some(render_catalog()),
        Some(akash_catalog()),
    ]);
    assert_eq!(aggregator.inventory_len(), 5);
    for i in 1..aggregator.inventory_len() {
        let a = aggregator.inventory_at(i - 1);
        let b = aggregator.inventory_at(i);
        // tflops per cent never increases along the list
        assert!(
            (a.tflops_tenths as u128) * (b.price_per_hour_cents as u128)
                >= (b.tflops_tenths as u128) * (a.price_per_hour_cents as u128)
        );
    }
}

#[test]
fn remote_gpu_selection_modes() {
    // Listings A{tflops=80, price=0.40}, B{tflops=20, price=0.10},
    // C{tflops=50, price=0.20}: Balanced picks C, Cheapest B, HighestTflops A.
    let a = make_listing("A", GpuModelClass::Other, 8, 80, 800, 40, GpuProvider::IoNet, "x", 10);
    let b = make_listing("B", GpuModelClass::Other, 8, 80, 200, 10, GpuProvider::IoNet, "x", 10);
    let c = make_listing("C", GpuModelClass::Other, 8, 80, 500, 20, GpuProvider::IoNet, "x", 10);
    let mut aggregator = Web3GpuAggregator::new();
    aggregator.refresh_inventory(vec![Some(vec![a, b, c])]);

    let balanced = aggregator.select_gpu(&requirements(GpuPriorityMode::Balanced)).unwrap();
    assert_eq!(balanced.model, "C");
    let cheapest = aggregator.select_gpu(&requirements(GpuPriorityMode::Cheapest)).unwrap();
    assert_eq!(cheapest.model, "B");
    let fastest = aggregator.select_gpu(&requirements(GpuPriorityMode::HighestTflops)).unwrap();
    assert_eq!(fastest.model, "A");
}

#[test]
fn selection_respects_filters_and_reports_failure() {
    let mut aggregator = Web3GpuAggregator::new();
    aggregator.refresh_inventory(vec![Some(akash_catalog())]);
    let mut req = requirements(GpuPriorityMode::Cheapest);
    req.min_vram_gb = 64; // nothing offers that much memory
    assert!(aggregator.select_gpu(&req).is_err());
}

#[test]
fn allocation_and_release_bookkeeping() {
    let mut aggregator = Web3GpuAggregator::new();
    let gpu = make_listing(
        "RTX 4090",
        GpuModelClass::Rtx4090,
        24,
        89,
        826,
        35,
        GpuProvider::IoNet,
        "US-West",
        20,
    );
    // 0.1 hours at 35 cents/hour: 3500 thousandths of a cent.
    let allocation = aggregator
        .record_allocation("job-1".to_string(), gpu, 100, "alloc-1".to_string(), 7)
        .unwrap();
    assert_eq!(allocation.cost_millicents, 3500);
    assert_eq!(aggregator.get_current_costs(), 3500);
    assert_eq!(aggregator.active_job_count(), 1);

    // The 4090 baseline is 3.50/hour: ten times the marketplace price.
    let report = aggregator.calculate_savings();
    assert_eq!(report.web3_cost, 3500);
    assert_eq!(report.centralized_cost, 35000);
    assert_eq!(report.savings, 31500);
    assert_eq!(report.savings_percentage, 90);

    let handle = aggregator.release_gpu(&"job-1".to_string()).unwrap();
    assert_eq!(handle, "alloc-1");
    assert_eq!(aggregator.get_current_costs(), 0);
    assert_eq!(aggregator.active_job_count(), 0);
    assert!(aggregator.release_gpu(&"job-1".to_string()).is_none());
}

#[test]
fn allocation_overflow_is_a_capacity_error() {
    let mut aggregator = Web3GpuAggregator::new();
    let gpu = make_listing("X", GpuModelClass::Other, 8, 80, 10, u64::MAX, GpuProvider::Flux, "x", 1);
    // An hourly price at the type bound times any positive duration cannot
    // be accounted.
    let result = aggregator.record_allocation("j".to_string(), gpu, 2, "a".to_string(), 0);
    assert_eq!(result.err().map(|e| e == EngineError::Capacity), Some(true));
    assert_eq!(aggregator.active_job_count(), 0);
    assert_eq!(aggregator.get_current_costs(), 0);
}
