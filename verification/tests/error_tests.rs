use weather_service::error::{to_fault, AppError, FaultKind};

#[test]
fn test_provider_error_conversion() {
    let error = AppError::Provider("provider error".to_string());
    let fault = to_fault(error);
    assert_eq!(fault.kind, FaultKind::FailedPrecondition);
    assert_eq!(fault.message, "provider error");
}

#[test]
fn test_config_error_conversion() {
    let error = AppError::Config("config error".to_string());
    let fault = to_fault(error);
    assert_eq!(fault.kind, FaultKind::Internal);
    assert_eq!(fault.message, "Configuration error: config error");
}

#[test]
fn test_weather_api_error_conversion() {
    let error = AppError::WeatherApi("weather api error".to_string());
    let fault = to_fault(error);
    assert_eq!(fault.kind, FaultKind::Unavailable);
    assert_eq!(fault.message, "weather api error");
}

#[test]
fn test_invalid_reqwest_error_conversion() {
    let error = AppError::Invalidreqwest("invalid request".to_string());
    let fault = to_fault(error);
    assert_eq!(fault.kind, FaultKind::InvalidArgument);
    assert_eq!(fault.message, "invalid request");
}

#[test]
fn test_not_found_error_conversion() {
    let error = AppError::NotFound("resource not found".to_string());
    let fault = to_fault(error);
    assert_eq!(fault.kind, FaultKind::NotFound);
    assert_eq!(fault.message, "resource not found");
}
