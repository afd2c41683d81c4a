use realmdex::routes::{admin_route, extract_server_id, job_for_cron, route, AdminRoute, Route, ScheduledJob};
use realmdex::security::Method;

#[test]
fn top_level_routes() {
    assert_eq!(route("/admin", Method::Get), Route::Admin);
    assert_eq!(route("/admin/edit/3", Method::Get), Route::Admin);
    assert_eq!(route("/api/admin/servers", Method::Post), Route::Admin);
    assert_eq!(route("/api/list_servers", Method::Post), Route::ListServers);
    assert_eq!(route("/api/list_servers", Method::Get), Route::Home);
    assert_eq!(route("/api/server_sparkline", Method::Post), Route::ServerSparkline);
    assert_eq!(route("/", Method::Get), Route::Home);
    assert_eq!(route("/administrator", Method::Get), Route::Admin);
}

#[test]
fn server_ids_in_paths() {
    assert_eq!(extract_server_id("/api/admin/servers/42"), Some(42));
    assert_eq!(extract_server_id("/api/admin/servers/-7"), Some(-7));
    assert_eq!(extract_server_id("/api/admin/servers/+7"), Some(7));
    assert_eq!(extract_server_id("/api/admin/servers/"), None);
    assert_eq!(extract_server_id("/api/admin/servers/4x"), None);
    assert_eq!(extract_server_id("/api/admin/servers/9223372036854775807"), Some(i64::MAX));
    assert_eq!(extract_server_id("/api/admin/servers/9223372036854775808"), None);
    assert_eq!(extract_server_id("/api/admin/servers/-9223372036854775808"), Some(i64::MIN));
    assert_eq!(extract_server_id("/api/admin/servers/-9223372036854775809"), None);
    assert_eq!(extract_server_id("/other/42"), None);
}

#[test]
fn admin_routes() {
    assert_eq!(admin_route("/api/admin/servers", Method::Post), AdminRoute::CreateServer);
    assert_eq!(admin_route("/api/admin/servers", Method::Put), AdminRoute::ApiNotFound);
    assert_eq!(admin_route("/api/admin/servers/5", Method::Put), AdminRoute::UpdateServer(5));
    assert_eq!(admin_route("/api/admin/servers/5", Method::Delete), AdminRoute::DeleteServer(5));
    assert_eq!(admin_route("/api/admin/servers/5", Method::Post), AdminRoute::ApiNotFound);
    assert_eq!(admin_route("/api/admin/other", Method::Get), AdminRoute::ApiNotFound);
    assert_eq!(admin_route("/admin", Method::Get), AdminRoute::ListPage);
    assert_eq!(admin_route("/admin/", Method::Get), AdminRoute::ListPage);
    assert_eq!(admin_route("/admin/edit/12", Method::Get), AdminRoute::EditPage(12));
    assert_eq!(admin_route("/admin/edit/x", Method::Get), AdminRoute::PageNotFound);
    assert_eq!(admin_route("/admin/other", Method::Get), AdminRoute::PageNotFound);
}

#[test]
fn cron_jobs() {
    assert_eq!(job_for_cron("*/1 * * * *"), ScheduledJob::Poll);
    assert_eq!(job_for_cron("30 3 * * *"), ScheduledJob::Rollup);
    assert_eq!(job_for_cron("0 0 * * *"), ScheduledJob::Idle);
}
