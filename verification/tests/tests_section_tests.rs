use prompt_builder::models::tests::Tests;

#[test]
fn test_tests_new() {
    let tests = Tests::new();
    assert!(tests.text.is_empty());
}

#[test]
fn test_tests_with_text() {
    let mut tests = Tests::new();
    tests.text = "Inclua testes unitários para todas as funções públicas".to_string();
    assert_eq!(
        tests.text,
        "Inclua testes unitários para todas as funções públicas"
    );
}

#[test]
fn test_tests_generate_text_empty() {
    let tests = Tests::new();
    let generated = tests.generate_text();
    assert_eq!(generated, "<START_TESTS>\n\n<END_TESTS>\n");
}

#[test]
fn test_tests_generate_text_with_content() {
    let mut tests = Tests::new();
    tests.text = "Testes obrigatórios:\n1. Testes unitários\n2. Testes de integração\n3. Testes de performance".to_string();

    let generated = tests.generate_text();
    let expected = "<START_TESTS>\nTestes obrigatórios:\n1. Testes unitários\n2. Testes de integração\n3. Testes de performance\n<END_TESTS>\n";
    assert_eq!(generated, expected);
}

#[test]
fn test_tests_unit_test_requirements() {
    let mut tests = Tests::new();
    tests.text = "Testes unitários:\n- Cobertura mínima de 80%\n- Testes para casos extremos\n- Mocks para dependências externas".to_string();

    let generated = tests.generate_text();
    assert!(generated.contains("Cobertura mínima"));
    assert!(generated.contains("casos extremos"));
    assert!(generated.contains("Mocks"));
}

#[test]
fn test_tests_integration_requirements() {
    let mut tests = Tests::new();
    tests.text = "Testes de integração:\n- Teste APIs end-to-end\n- Validação de banco de dados\n- Cenários de usuário reais".to_string();

    let generated = tests.generate_text();
    assert!(generated.contains("APIs end-to-end"));
    assert!(generated.contains("banco de dados"));
    assert!(generated.contains("usuário reais"));
    assert!(generated.starts_with("<START_TESTS>"));
    assert!(generated.ends_with("<END_TESTS>\n"));
}

#[test]
fn test_tests_framework_specifications() {
    let mut tests = Tests::new();
    tests.text = "Frameworks recomendados:\n- Rust: cargo test, proptest\n- JavaScript: Jest, Cypress\n- Python: pytest, unittest".to_string();

    let generated = tests.generate_text();
    assert!(generated.contains("cargo test"));
    assert!(generated.contains("Jest"));
    assert!(generated.contains("pytest"));
}

#[test]
fn test_tests_clone() {
    let mut original = Tests::new();
    original.text = "Requisitos de teste originais".to_string();

    let cloned = original.clone();
    assert_eq!(original.text, cloned.text);
}

#[test]
fn test_tests_debug_format() {
    let mut tests = Tests::new();
    tests.text = "Teste debug".to_string();

    let debug_str = format!("{:?}", tests);
    assert!(debug_str.contains("Tests"));
    assert!(debug_str.contains("Teste debug"));
}

#[test]
fn test_tests_text_append() {
    let mut tests = Tests::new();
    tests.text = "Teste inicial".to_string();
    tests.text.push_str("\nTeste adicional");

    assert!(tests.text.contains("Teste inicial"));
    assert!(tests.text.contains("Teste adicional"));
}

#[test]
fn test_tests_clear() {
    let mut tests = Tests::new();
    tests.text = "Requisitos temporários".to_string();
    tests.text.clear();
    assert!(tests.text.is_empty());
}

#[test]
fn test_tests_performance_requirements() {
    let mut tests = Tests::new();
    tests.text = "Testes de performance:\n- Tempo de resposta < 100ms\n- Throughput > 1000 req/s\n- Uso de memória < 512MB".to_string();

    let generated = tests.generate_text();
    assert!(generated.contains("100ms"));
    assert!(generated.contains("1000 req/s"));
    assert!(generated.contains("512MB"));
}

#[test]
fn test_tests_coverage_requirements() {
    let mut tests = Tests::new();
    tests.text = "Cobertura de código:\n- Funções críticas: 100%\n- Código geral: 80%\n- Relatórios automatizados".to_string();

    let generated = tests.generate_text();
    assert!(generated.contains("100%"));
    assert!(generated.contains("80%"));
    assert!(generated.contains("automatizados"));
}
